//! A dictionary word that belongs to a puzzle, with its score.

use vstd::prelude::*;
use crate::utils::get_point_value;
use crate::utils::scorable;
use crate::utils::spec_point_value;

verus! {

/// One word accepted into a puzzle: the word itself, whether the player has
/// found it yet, whether it is a pangram, and its point value.
#[derive(Debug)]
pub struct ValidWord {
    pub word: String,
    pub is_found: bool,
    pub is_panagram: bool,
    pub point_value: u64,
}

/// The entry produced for a freshly accepted word: not yet found, and scored
/// by `spec_point_value`.
pub open spec fn spec_new_unfound(word: String, is_panagram: bool) -> ValidWord {
    ValidWord {
        word,
        is_found: false,
        is_panagram,
        point_value: spec_point_value(word@, is_panagram) as u64,
    }
}

impl ValidWord {
    /// A fresh, unfound entry for `word`.
    pub fn new_unfound(word: String, is_panagram: bool) -> (entry: ValidWord)
        requires
            scorable(word@),
        ensures
            entry == spec_new_unfound(word, is_panagram),
    {
        ValidWord {
            point_value: get_point_value(word.as_str(), is_panagram),
            word,
            is_found: false,
            is_panagram,
        }
    }
}

} // verus!
