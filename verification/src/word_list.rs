//! The dictionary of one language: an ordered list of candidate words.

use vstd::prelude::*;
use crate::lang::LanguageCode;
use crate::utils::str_eq;

verus! {

/// An ordered list of candidate words for one language.  The caller loads it
/// once and treats it as read-only.
#[derive(Debug)]
pub struct WordList {
    pub words: Vec<String>,
    pub language_code: LanguageCode,
}

impl WordList {
    /// The first word list in `lists` whose language code is `code`, if any.
    pub fn find_by_code<'a>(lists: &'a Vec<WordList>, code: &str) -> (found: Option<
        &'a WordList,
    >)
        ensures
            match found {
                Some(list) => exists|i: int|
                    0 <= i < lists@.len() && *list == lists@[i]
                        && (#[trigger] lists@[i].language_code.code)@ == code@ && forall|j: int|
                        0 <= j < i ==> (#[trigger] lists@[j].language_code.code)@ != code@,
                None => forall|i: int|
                    0 <= i < lists@.len() ==> (#[trigger] lists@[i].language_code.code)@
                        != code@,
            },
    {
        let n: usize = lists.len();
        for i in 0..n
            invariant
                n == lists@.len(),
                forall|j: int| 0 <= j < i ==> (#[trigger] lists@[j].language_code.code)@ != code@,
        {
            let list: &WordList = &lists[i];
            if str_eq(list.language_code.code.as_str(), code) {
                return Some(list);
            }
        }
        None
    }
}

} // verus!
