//! One evaluated daily game: the letter set, every accepted word with its
//! score, and the aggregate totals.

use vstd::prelude::*;
use crate::comb::spec_valid_words;
use crate::comb::Comb;
use crate::lang::LanguageCode;
use crate::utils::scorable;
use crate::valid_word::ValidWord;
use crate::word_list::WordList;

verus! {

/// A calendar date as plain year, month and day numbers; the surrounding
/// system supplies it and the core only carries it through.
#[derive(Debug, Clone, Copy, PartialEq, Eq, Structural)]
pub struct GameDate {
    pub year: i32,
    pub month: u8,
    pub day: u8,
}

/// The identity of one daily game: its date and its language.
#[derive(Debug)]
pub struct GameIdentifier {
    pub date: GameDate,
    pub language_code: LanguageCode,
}

/// The total point value of a sequence of scored entries.
pub open spec fn spec_total_points(entries: Seq<ValidWord>) -> int
    decreases entries.len(),
{
    if entries.len() == 0 {
        0
    } else {
        spec_total_points(entries.drop_last()) + entries.last().point_value
    }
}

/// The points of a prefix never exceed the points of the whole list.
pub proof fn lemma_total_points_prefix(entries: Seq<ValidWord>, i: int)
    requires
        0 <= i <= entries.len(),
    ensures
        spec_total_points(entries.take(i)) <= spec_total_points(entries),
    decreases entries.len() - i,
{
    if i == entries.len() {
        assert(entries.take(i) =~= entries);
    } else {
        lemma_total_points_prefix(entries, i + 1);
        assert(entries.take(i + 1).drop_last() =~= entries.take(i));
        assert(entries.take(i + 1).last() == entries[i]);
    }
}

/// One evaluated puzzle, ready to be stored and served: identifier, letter
/// set, date, every valid word with its score, and the totals.
#[derive(Debug)]
pub struct Game {
    pub _id: String,
    pub _rev: String,
    pub comb: Comb,
    pub date: GameDate,
    pub total_words: u64,
    pub total_points: u64,
    pub valid_words: Vec<ValidWord>,
    pub language_code: LanguageCode,
}

impl Game {
    /// Evaluate a puzzle under the given identifier: classify and score
    /// every dictionary word, keep the accepted ones in dictionary order,
    /// and record how many they are and how much they are worth together.
    pub fn new_id(comb: Comb, date: GameDate, word_list: &WordList, id: String) -> (game: Game)
        requires
            comb.wf(),
            forall|i: int|
                0 <= i < word_list.words@.len() ==> scorable(#[trigger] word_list.words@[i]@),
            spec_total_points(spec_valid_words(comb, word_list.words@)) <= u64::MAX,
        ensures
            game._id == id,
            game._rev@ == Seq::<char>::empty(),
            game.comb == comb,
            game.date == date,
            game.language_code == word_list.language_code,
            game.valid_words@ == spec_valid_words(comb, word_list.words@),
            game.total_words == spec_valid_words(comb, word_list.words@).len(),
            game.total_points == spec_total_points(spec_valid_words(comb, word_list.words@)),
    {
        let valid_words: Vec<ValidWord> = comb.get_valid_words(word_list);
        let mut total_points: u64 = 0;
        let n: usize = valid_words.len();
        assert(valid_words@.take(0) =~= Seq::<ValidWord>::empty());
        for i in 0..n
            invariant
                n == valid_words@.len(),
                valid_words@ == spec_valid_words(comb, word_list.words@),
                spec_total_points(valid_words@) <= u64::MAX,
                total_points == spec_total_points(valid_words@.take(i as int)),
        {
            proof {
                lemma_total_points_prefix(valid_words@, i + 1);
                assert(valid_words@.take(i + 1).drop_last() =~= valid_words@.take(i as int));
                assert(valid_words@.take(i + 1).last() == valid_words@[i as int]);
            }
            total_points = total_points + valid_words[i].point_value;
        }
        proof {
            assert(valid_words@.take(n as int) =~= valid_words@);
        }
        Game {
            comb,
            date,
            total_words: valid_words.len() as u64,
            _id: id,
            _rev: String::new(),
            total_points,
            valid_words,
            language_code: word_list.language_code.clone(),
        }
    }
}

} // verus!
