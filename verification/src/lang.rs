//! Languages supported by the puzzle service, as plain data.

use vstd::prelude::*;

verus! {

/// One supported language: its code, display name, alphabet and flag.
#[derive(Debug)]
pub struct LanguageCode {
    pub code: String,
    pub name: String,
    pub letter_set: String,
    pub flag_emoji: String,
}

impl Clone for LanguageCode {
    /// Cloning keeps every field.
    fn clone(&self) -> (other: Self)
        ensures
            other == *self,
    {
        LanguageCode {
            code: self.code.clone(),
            name: self.name.clone(),
            letter_set: self.letter_set.clone(),
            flag_emoji: self.flag_emoji.clone(),
        }
    }
}

/// The list of all supported languages.
#[derive(Debug)]
pub struct LangList(pub Vec<LanguageCode>);

} // verus!
