//! Word-level helpers: the distinct letters of a word and the point value of
//! a scored word.

use vstd::prelude::*;
use vstd::string::StrSliceExecFns;

verus! {

/// The distinct characters of `word`, in order of first occurrence.
pub open spec fn unique_letters(word: Seq<char>) -> Seq<char>
    decreases word.len(),
{
    if word.len() == 0 {
        Seq::empty()
    } else {
        let prefix = unique_letters(word.drop_last());
        if prefix.contains(word.last()) {
            prefix
        } else {
            prefix.push(word.last())
        }
    }
}

/// The unique-letter sequence of a word repeats no character, covers exactly
/// the characters of the word, and its length is the number of distinct
/// characters of the word.
pub proof fn lemma_unique_letters(word: Seq<char>)
    ensures
        unique_letters(word).no_duplicates(),
        unique_letters(word).to_set() == word.to_set(),
        unique_letters(word).len() == word.to_set().len(),
    decreases word.len(),
{
    if word.len() == 0 {
        assert(unique_letters(word) =~= Seq::<char>::empty());
        assert(unique_letters(word).to_set() =~= word.to_set());
        assert(word.to_set() =~= Set::<char>::empty());
    } else {
        let prefix = unique_letters(word.drop_last());
        let result = unique_letters(word);
        let last = word.last();
        lemma_unique_letters(word.drop_last());
        assert(word.drop_last().to_set().insert(last) =~= word.to_set()) by {
            assert(forall|i: int|
                0 <= i < word.len() - 1 ==> word.drop_last()[i] == word[i]);
            assert forall|c: char| word.contains(c) && c != last
                implies word.drop_last().contains(c) by {
                let i = choose|i: int| 0 <= i < word.len() && word[i] == c;
                assert(word.drop_last()[i] == c);
            };
            assert(word.contains(last));
        }
        if prefix.contains(last) {
            assert(prefix.to_set().contains(last));
            assert(result.to_set() =~= word.to_set());
        } else {
            assert(result =~= prefix.push(last));
            assert forall|c: char| result.contains(c)
                implies prefix.contains(c) || c == last by {
                let i = choose|i: int| 0 <= i < result.len() && result[i] == c;
                if i < prefix.len() {
                    assert(prefix[i] == c);
                }
            };
            assert forall|c: char| prefix.contains(c) implies result.contains(c) by {
                let i = choose|i: int| 0 <= i < prefix.len() && prefix[i] == c;
                assert(result[i] == c);
            };
            assert(result[prefix.len() as int] == last);
            assert(result.contains(last));
            assert(result.to_set() =~= prefix.to_set().insert(last));
            assert(result.to_set() =~= word.to_set());
            assert forall|i: int, j: int|
                0 <= i < result.len() && 0 <= j < result.len() && i != j
                implies result[i] != result[j] by {
                if i < prefix.len() && j < prefix.len() {
                } else if j == prefix.len() {
                    assert(prefix.contains(prefix[i]));
                } else if i == prefix.len() {
                    assert(prefix.contains(prefix[j]));
                }
            };
        }
        unique_letters(word).unique_seq_to_set();
    }
}

/// True iff `c` occurs in `chars`.
pub(crate) fn contains_char(chars: &Vec<char>, c: char) -> (present: bool)
    ensures
        present == chars@.contains(c),
{
    let n: usize = chars.len();
    for i in 0..n
        invariant
            n == chars@.len(),
            forall|j: int| 0 <= j < i ==> chars@[j] != c,
    {
        if chars[i] == c {
            return true;
        }
    }
    false
}

/// The distinct characters of `word`, in order of first occurrence.
pub fn get_unique_letters(word: &str) -> (letters: Vec<char>)
    ensures
        letters@ == unique_letters(word@),
{
    let len: usize = word.unicode_len();
    let mut present_chars: Vec<char> = Vec::with_capacity(len);
    assert(word@.take(0) =~= Seq::empty());
    for i in 0..len
        invariant
            len == word@.len(),
            present_chars@ == unique_letters(word@.take(i as int)),
    {
        let c: char = word.get_char(i);
        proof {
            assert(word@.take(i + 1).drop_last() =~= word@.take(i as int));
            assert(word@.take(i + 1).last() == c);
        }
        if !contains_char(&present_chars, c) {
            present_chars.push(c);
        }
    }
    proof {
        assert(word@.take(len as int) =~= word@);
    }
    present_chars
}

/// The word is short enough that even its doubled point value fits in a
/// `u64`.  Every real word satisfies this; it only rules out lengths no
/// allocation can reach.
pub open spec fn scorable(word: Seq<char>) -> bool {
    word.len() <= u64::MAX / 2
}

/// The point value of a word: its character count less three, never going
/// below zero, and doubled when the word is a pangram.
pub open spec fn spec_point_value(word: Seq<char>, is_panagram: bool) -> int {
    let base: int = if word.len() <= 3 {
        0
    } else {
        word.len() - 3
    };
    if is_panagram {
        2 * base
    } else {
        base
    }
}

/// A pangram is worth exactly twice the plain value of the same word.
pub proof fn lemma_point_value_doubles(word: Seq<char>)
    ensures
        spec_point_value(word, true) == 2 * spec_point_value(word, false),
        spec_point_value(word, false) == if word.len() <= 3 {
            0
        } else {
            word.len() - 3
        },
{
}

/// The point value of a word, counted over characters rather than bytes.
pub fn get_point_value(word: &str, is_panagram: bool) -> (points: u64)
    requires
        scorable(word@),
    ensures
        points == spec_point_value(word@, is_panagram),
{
    let length: u64 = word.unicode_len() as u64;
    let points: u64 = length.saturating_sub(3);

    if is_panagram {
        points * 2
    } else {
        points
    }
}

/// True iff the two string slices hold the same characters.
pub(crate) fn str_eq(a: &str, b: &str) -> (equal: bool)
    ensures
        equal == (a@ == b@),
{
    let a_len: usize = a.unicode_len();
    let b_len: usize = b.unicode_len();
    if a_len != b_len {
        return false;
    }
    for i in 0..a_len
        invariant
            a_len == a@.len(),
            b_len == b@.len(),
            a_len == b_len,
            forall|j: int| 0 <= j < i ==> a@[j] == b@[j],
    {
        if a.get_char(i) != b.get_char(i) {
            return false;
        }
    }
    proof {
        assert(a@ =~= b@);
    }
    true
}

} // verus!
