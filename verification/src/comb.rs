//! The letter set of one puzzle (the "comb"), word classification against
//! it, derivation of a fresh set from a dictionary, and evaluation of a whole
//! dictionary.

use vstd::prelude::*;
use vstd::seq_lib::*;
use vstd::set_lib::lemma_subset_equality;
use rand::Rng;
use crate::utils::get_unique_letters;
use crate::utils::lemma_unique_letters;
use crate::utils::scorable;
use crate::utils::unique_letters;
use crate::valid_word::spec_new_unfound;
use crate::valid_word::ValidWord;
use crate::word_list::WordList;

verus! {

/// The seven letters of one puzzle: one mandatory center letter and six
/// outer letters, all distinct.
#[derive(Debug)]
pub struct Comb {
    pub center_char: char,
    pub outer_chars: [char; 6],
}

/// How one word relates to a letter set.
#[derive(Debug, PartialEq, Eq, Structural)]
pub enum WordStatus {
    NotValid,
    Valid,
    Panagram,
}

/// Why no letter set could be derived from a dictionary.
#[derive(Debug, PartialEq, Eq, Structural)]
pub enum DeriveError {
    /// The dictionary holds no word at all.
    EmptyDictionary,
    /// No word in the dictionary has exactly seven distinct letters.
    NoPangramFound,
}

impl Comb {
    /// The set of outer letters.
    pub open spec fn outer_set(self) -> Set<char> {
        self.outer_chars@.to_set()
    }

    /// All seven letters of the puzzle.
    pub open spec fn letters(self) -> Set<char> {
        self.outer_set().insert(self.center_char)
    }

    /// A well-formed letter set: the six outer letters are distinct and the
    /// center letter is not among them.
    pub open spec fn wf(self) -> bool {
        &&& self.outer_chars@.no_duplicates()
        &&& !self.outer_chars@.contains(self.center_char)
    }

    /// How `word` (as a sequence of characters) is classified against this
    /// letter set: not valid if it uses a letter outside the seven or misses
    /// the center letter, a pangram if its distinct letters are exactly the
    /// seven, and otherwise valid.
    pub open spec fn spec_classify(self, word: Seq<char>) -> WordStatus {
        let word_set = word.to_set();
        if !word_set.subset_of(self.letters()) {
            WordStatus::NotValid
        } else if !word_set.contains(self.center_char) {
            WordStatus::NotValid
        } else if word_set == self.letters() {
            WordStatus::Panagram
        } else {
            WordStatus::Valid
        }
    }
}

/// A well-formed letter set has exactly six distinct outer letters, the
/// center letter is not one of them, and all seven letters are distinct.
pub proof fn lemma_seven_letters(comb: Comb)
    requires
        comb.wf(),
    ensures
        comb.outer_set().len() == 6,
        !comb.outer_set().contains(comb.center_char),
        comb.letters().len() == 7,
        comb.letters().finite(),
{
    comb.outer_chars@.unique_seq_to_set();
}

/// A word is classified a pangram exactly when its distinct letters are
/// exactly the seven letters of the set.
pub proof fn lemma_pangram_iff(comb: Comb, word: Seq<char>)
    requires
        comb.wf(),
    ensures
        comb.spec_classify(word) == WordStatus::Panagram <==> word.to_set() == comb.letters(),
{
    if word.to_set() == comb.letters() {
        assert(comb.letters().contains(comb.center_char));
        assert(word.to_set().subset_of(comb.letters()));
    }
}

/// The empty word is never valid: it cannot contain the center letter.
pub proof fn lemma_empty_word_not_valid(comb: Comb)
    ensures
        comb.spec_classify(Seq::empty()) == WordStatus::NotValid,
{
    assert(!Seq::<char>::empty().to_set().contains(comb.center_char));
}

/// True iff `c` is one of the six outer letters.
fn outer_contains(outer: &[char; 6], c: char) -> (present: bool)
    ensures
        present == outer@.contains(c),
{
    let n: usize = 6;
    for i in 0..n
        invariant
            n == 6,
            outer@.len() == 6,
            forall|j: int| 0 <= j < i ==> outer@[j] != c,
    {
        if outer[i] == c {
            return true;
        }
    }
    false
}

impl Comb {
    /// Classify one word against this letter set, as `spec_classify` does.
    pub fn check_word_status(&self, word_to_check: &str) -> (status: WordStatus)
        requires
            self.wf(),
        ensures
            status == self.spec_classify(word_to_check@),
    {
        let mut contains_center: bool = false;
        let word_dedup: Vec<char> = get_unique_letters(word_to_check);
        proof {
            lemma_unique_letters(word_to_check@);
            lemma_seven_letters(*self);
        }
        let n: usize = word_dedup.len();
        for i in 0..n
            invariant
                self.wf(),
                n == word_dedup@.len(),
                word_dedup@ == unique_letters(word_to_check@),
                contains_center <==> exists|j: int|
                    0 <= j < i && word_dedup@[j] == self.center_char,
                forall|j: int|
                    0 <= j < i ==> #[trigger] self.letters().contains(word_dedup@[j]),
        {
            let c: char = word_dedup[i];
            if c == self.center_char {
                contains_center = true;
                proof {
                    assert(word_dedup@[i as int] == self.center_char);
                }
            } else {
                if !outer_contains(&self.outer_chars, c) {
                    proof {
                        lemma_unique_letters(word_to_check@);
                        assert(word_dedup@.contains(c));
                        assert(word_to_check@.to_set().contains(c));
                        assert(!self.letters().contains(c));
                        assert(!word_to_check@.to_set().subset_of(self.letters()));
                    }
                    return WordStatus::NotValid;
                }
                proof {
                    assert(self.outer_set().contains(c));
                }
            }
        }
        proof {
            lemma_unique_letters(word_to_check@);
            assert forall|c: char| word_to_check@.to_set().contains(c)
                implies self.letters().contains(c) by {
                assert(word_dedup@.to_set().contains(c));
                let j = choose|j: int| 0 <= j < word_dedup@.len() && word_dedup@[j] == c;
                assert(self.letters().contains(word_dedup@[j]));
            };
            assert(word_to_check@.to_set().subset_of(self.letters()));
        }
        if !contains_center {
            proof {
                assert(!word_to_check@.to_set().contains(self.center_char)) by {
                    if word_to_check@.to_set().contains(self.center_char) {
                        assert(word_dedup@.to_set().contains(self.center_char));
                        let j = choose|j: int|
                            0 <= j < word_dedup@.len() && word_dedup@[j] == self.center_char;
                    }
                }
            }
            WordStatus::NotValid
        } else if word_dedup.len() == 7 {
            proof {
                assert(word_to_check@.to_set().contains(self.center_char));
                assert(word_to_check@.to_set().len() == 7);
                lemma_subset_equality(word_to_check@.to_set(), self.letters());
            }
            WordStatus::Panagram
        } else {
            proof {
                assert(word_to_check@.to_set().contains(self.center_char));
                assert(word_to_check@.to_set() != self.letters()) by {
                    if word_to_check@.to_set() == self.letters() {
                        assert(word_to_check@.to_set().len() == 7);
                    }
                }
            }
            WordStatus::Valid
        }
    }
}

/// The scored entries for every word of `words` that the letter set accepts,
/// in dictionary order; rejected words leave no entry.
pub open spec fn spec_valid_words(comb: Comb, words: Seq<String>) -> Seq<ValidWord>
    decreases words.len(),
{
    if words.len() == 0 {
        Seq::empty()
    } else {
        let rest = spec_valid_words(comb, words.drop_last());
        let word = words.last();
        if comb.spec_classify(word@) == WordStatus::NotValid {
            rest
        } else {
            rest.push(spec_new_unfound(word, comb.spec_classify(word@) == WordStatus::Panagram))
        }
    }
}

/// Every entry that evaluation emits was classified valid or a pangram, is
/// marked unfound, its pangram flag agrees with the classification of its
/// word, and its points are that word's point value under the flag.
pub proof fn lemma_valid_words_entries(comb: Comb, words: Seq<String>)
    requires
        forall|i: int| 0 <= i < words.len() ==> scorable(#[trigger] words[i]@),
    ensures
        forall|k: int|
            0 <= k < spec_valid_words(comb, words).len() ==> {
                let entry = #[trigger] spec_valid_words(comb, words)[k];
                &&& comb.spec_classify(entry.word@) != WordStatus::NotValid
                &&& entry.is_found == false
                &&& (entry.is_panagram <==> comb.spec_classify(entry.word@)
                    == WordStatus::Panagram)
                &&& entry.point_value == crate::utils::spec_point_value(
                    entry.word@,
                    entry.is_panagram,
                )
            },
    decreases words.len(),
{
    if words.len() > 0 {
        let prefix = words.drop_last();
        assert(forall|i: int| 0 <= i < prefix.len() ==> prefix[i] == words[i]);
        lemma_valid_words_entries(comb, prefix);
        let rest = spec_valid_words(comb, prefix);
        let word = words.last();
        let result = spec_valid_words(comb, words);
        assert forall|k: int| 0 <= k < result.len() implies {
            let entry = #[trigger] result[k];
            &&& comb.spec_classify(entry.word@) != WordStatus::NotValid
            &&& entry.is_found == false
            &&& (entry.is_panagram <==> comb.spec_classify(entry.word@) == WordStatus::Panagram)
            &&& entry.point_value == crate::utils::spec_point_value(entry.word@, entry.is_panagram)
        } by {
            if k < rest.len() {
                assert(result[k] == rest[k]);
            } else {
                let status = comb.spec_classify(word@);
                assert(status != WordStatus::NotValid);
                assert(result[k] == spec_new_unfound(word, status == WordStatus::Panagram));
                assert(scorable(words[words.len() - 1]@));
                assert(0 <= crate::utils::spec_point_value(word@, status == WordStatus::Panagram)
                    <= u64::MAX);
            }
        };
    }
}

impl Comb {
    /// The scored entries for every accepted word of the dictionary, in
    /// dictionary order.
    pub fn get_valid_words(&self, word_list: &WordList) -> (valid_words: Vec<ValidWord>)
        requires
            self.wf(),
            forall|i: int|
                0 <= i < word_list.words@.len() ==> scorable(#[trigger] word_list.words@[i]@),
        ensures
            valid_words@ == spec_valid_words(*self, word_list.words@),
    {
        let mut valid_words: Vec<ValidWord> = Vec::new();
        let n: usize = word_list.words.len();
        assert(word_list.words@.take(0) =~= Seq::<String>::empty());
        for i in 0..n
            invariant
                self.wf(),
                n == word_list.words@.len(),
                forall|k: int|
                    0 <= k < word_list.words@.len() ==> scorable(
                        #[trigger] word_list.words@[k]@,
                    ),
                valid_words@ == spec_valid_words(*self, word_list.words@.take(i as int)),
        {
            let word: &String = &word_list.words[i];
            proof {
                assert(word_list.words@.take(i + 1).drop_last() =~= word_list.words@.take(
                    i as int,
                ));
                assert(word_list.words@.take(i + 1).last() == word_list.words@[i as int]);
            }
            match self.check_word_status(word.as_str()) {
                WordStatus::Valid => {
                    valid_words.push(ValidWord::new_unfound(word.clone(), false));
                },
                WordStatus::Panagram => {
                    valid_words.push(ValidWord::new_unfound(word.clone(), true));
                },
                WordStatus::NotValid => {},
            }
        }
        proof {
            assert(word_list.words@.take(n as int) =~= word_list.words@);
        }
        valid_words
    }
}

/// Relies on rand's `Rng::gen_range` on the thread-local generator: for the
/// non-empty range `0..n` it returns a uniformly drawn value inside that
/// range, and panics only on an empty range, which `n > 0` rules out.
#[verifier::external_body]
fn random_index_below(n: usize) -> (index: usize)
    requires
        n > 0,
    ensures
        index < n,
{
    rand::thread_rng().gen_range(0..n)
}

/// The dictionary index scanned at step `k` of a scan that starts at `start`
/// and wraps around at `n`.
pub open spec fn wrap_index(start: int, k: int, n: int) -> int {
    if start + k < n {
        start + k
    } else {
        start + k - n
    }
}

impl Comb {
    /// Derive a fresh letter set from the dictionary: scan forward from a
    /// random starting word, wrapping around at the end, until a word with
    /// exactly seven distinct letters is found; one of those letters, drawn
    /// at random, becomes the center letter.  Fails on an empty dictionary,
    /// and when no word of the dictionary has exactly seven distinct
    /// letters; succeeds otherwise, and the derived letter set then has at
    /// least one pangram in the dictionary (the word that was found).
    pub fn new_random(word_list: &WordList) -> (result: Result<Comb, DeriveError>)
        ensures
            match result {
                Ok(comb) => {
                    &&& comb.wf()
                    &&& exists|i: int|
                        0 <= i < word_list.words@.len() && comb.spec_classify(
                            #[trigger] word_list.words@[i]@,
                        ) == WordStatus::Panagram
                },
                Err(DeriveError::EmptyDictionary) => word_list.words@.len() == 0,
                Err(DeriveError::NoPangramFound) => word_list.words@.len() > 0,
            },
            (result is Ok) <==> exists|i: int|
                0 <= i < word_list.words@.len() && unique_letters(
                    #[trigger] word_list.words@[i]@,
                ).len() == 7,
    {
        let num_words: usize = word_list.words.len();
        if num_words == 0 {
            return Err(DeriveError::EmptyDictionary);
        }
        let starting_index: usize = random_index_below(num_words);
        let mut k: usize = 0;
        while k < num_words
            invariant
                0 < num_words,
                num_words == word_list.words@.len(),
                starting_index < num_words,
                k <= num_words,
                forall|j: int|
                    0 <= j < k ==> unique_letters(
                        #[trigger] word_list.words@[wrap_index(
                            starting_index as int,
                            j,
                            num_words as int,
                        )]@,
                    ).len() != 7,
            decreases num_words - k,
        {
            let index: usize = if k < num_words - starting_index {
                starting_index + k
            } else {
                k - (num_words - starting_index)
            };
            proof {
                assert(index == wrap_index(starting_index as int, k as int, num_words as int));
            }
            let current_word: &String = &word_list.words[index];
            let mut current_unique_chars: Vec<char> = get_unique_letters(current_word.as_str());
            let ghost found_word: Seq<char> = word_list.words@[index as int]@;
            let ghost all_unique: Seq<char> = unique_letters(found_word);
            proof {
                lemma_unique_letters(found_word);
            }
            if current_unique_chars.len() == 7 {
                let center_letter_index: usize = random_index_below(7);
                let center_char: char = current_unique_chars.remove(center_letter_index);
                proof {
                    all_unique.remove_ensures(center_letter_index as int);
                }
                let outer_chars: [char; 6] = [
                    current_unique_chars[0],
                    current_unique_chars[1],
                    current_unique_chars[2],
                    current_unique_chars[3],
                    current_unique_chars[4],
                    current_unique_chars[5],
                ];
                let comb = Comb { center_char, outer_chars };
                proof {
                    let c_idx = center_letter_index as int;
                    let outer = current_unique_chars@;
                    assert(outer_chars@ =~= outer);
                    assert(outer.len() == 6);
                    // The outer letters are the unique letters minus the center.
                    assert(forall|j: int|
                        0 <= j < c_idx ==> #[trigger] outer[j] == all_unique[j]);
                    assert(forall|j: int|
                        c_idx <= j < 6 ==> #[trigger] outer[j] == all_unique[j + 1]);
                    // Distinct outer letters, none of them the center letter.
                    assert forall|j: int| 0 <= j < 6 implies #[trigger] outer[j] != center_char by {
                        if j < c_idx {
                            assert(all_unique[j] != all_unique[c_idx]);
                        } else {
                            assert(all_unique[j + 1] != all_unique[c_idx]);
                        }
                    };
                    assert(comb.wf());
                    // The seven letters are exactly the distinct letters of the found word.
                    assert forall|c: char| comb.letters().contains(c)
                        implies found_word.to_set().contains(c) by {
                        if c == center_char {
                            assert(all_unique.contains(all_unique[c_idx]));
                        } else {
                            let j = choose|j: int| 0 <= j < 6 && outer[j] == c;
                            if j < c_idx {
                                assert(all_unique.contains(all_unique[j]));
                            } else {
                                assert(all_unique.contains(all_unique[j + 1]));
                            }
                        }
                    };
                    assert forall|c: char| found_word.to_set().contains(c)
                        implies comb.letters().contains(c) by {
                        assert(all_unique.to_set().contains(c));
                        let j = choose|j: int| 0 <= j < all_unique.len() && all_unique[j] == c;
                        if j == c_idx {
                            assert(c == center_char);
                        } else if j < c_idx {
                            assert(outer[j] == c);
                            assert(outer.contains(c));
                        } else {
                            assert(outer[j - 1] == c);
                            assert(outer.contains(c));
                        }
                    };
                    assert(comb.letters() =~= found_word.to_set());
                    // The found word is a pangram for the derived set.
                    assert(found_word.to_set().contains(center_char)) by {
                        assert(all_unique.contains(all_unique[c_idx]));
                    }
                    assert(comb.spec_classify(found_word) == WordStatus::Panagram);
                    assert(unique_letters(word_list.words@[index as int]@).len() == 7);
                }
                return Ok(comb);
            }
            k = k + 1;
        }
        proof {
            assert forall|i: int| 0 <= i < word_list.words@.len()
                implies unique_letters(#[trigger] word_list.words@[i]@).len() != 7 by {
                let s = starting_index as int;
                let n = num_words as int;
                let j: int = if i >= s {
                    i - s
                } else {
                    i + n - s
                };
                assert(0 <= j < n);
                assert(wrap_index(s, j, n) == i);
                assert(unique_letters(word_list.words@[wrap_index(s, j, n)]@).len() != 7);
            };
        }
        Err(DeriveError::NoPangramFound)
    }
}

} // verus!
