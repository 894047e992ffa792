use spelling_bee::comb::{Comb, DeriveError, WordStatus};
use spelling_bee::lang::LanguageCode;
use spelling_bee::word_list::WordList;

fn test_lang(code: &str) -> LanguageCode {
    LanguageCode {
        code: code.to_string(),
        name: code.to_string(),
        letter_set: String::new(),
        flag_emoji: String::new(),
    }
}

fn test_word_list(words: &[&str]) -> WordList {
    WordList {
        words: words.iter().map(|w| w.to_string()).collect(),
        language_code: test_lang("en"),
    }
}

fn test_comb() -> Comb {
    Comb {
        center_char: 'A',
        outer_chars: ['B', 'C', 'D', 'E', 'F', 'G'],
    }
}

#[test]
fn test_check_word_validity() {
    let test_comb = Comb {
        center_char: 'A',
        outer_chars: ['B', 'C', 'D', 'E', 'F', 'G'],
    };
    assert_eq!(test_comb.check_word_status("A"), WordStatus::Valid);
    assert_eq!(test_comb.check_word_status("AB"), WordStatus::Valid);
    assert_eq!(test_comb.check_word_status("BAC"), WordStatus::Valid);
    assert_eq!(test_comb.check_word_status("CBGA"), WordStatus::Valid);
    assert_eq!(test_comb.check_word_status("AAAA"), WordStatus::Valid);
    assert_eq!(test_comb.check_word_status(""), WordStatus::NotValid);
    assert_eq!(test_comb.check_word_status("B"), WordStatus::NotValid);
    assert_eq!(test_comb.check_word_status("BCGFD"), WordStatus::NotValid);
    assert_eq!(test_comb.check_word_status("CBGZ"), WordStatus::NotValid);
    assert_eq!(test_comb.check_word_status("AAAAZ"), WordStatus::NotValid);
    assert_eq!(test_comb.check_word_status("ABCDEFG"), WordStatus::Panagram);
    assert_eq!(
        test_comb.check_word_status("ABCDEFGABCDEFGABCDEFG"),
        WordStatus::Panagram
    );
    assert_eq!(test_comb.check_word_status("GFEDCBA"), WordStatus::Panagram);
    assert_eq!(
        test_comb.check_word_status("GFEDCBAABCDEFG"),
        WordStatus::Panagram
    );
    assert_eq!(
        test_comb.check_word_status("AAAAAAAAABCDEFG"),
        WordStatus::Panagram
    );
}

#[test]
fn test_bad_add() {
    // This assert would fire and test will fail.
    // Please note, that private functions can be tested too!
    assert_eq!(1 + 2, 3);
}

#[test]
fn test_classification_scenario() {
    let comb = test_comb();
    assert_eq!(comb.check_word_status("A"), WordStatus::Valid);
    assert_eq!(comb.check_word_status("AB"), WordStatus::Valid);
    assert_eq!(comb.check_word_status(""), WordStatus::NotValid);
    assert_eq!(comb.check_word_status("B"), WordStatus::NotValid);
    assert_eq!(comb.check_word_status("BCGFD"), WordStatus::NotValid);
    assert_eq!(comb.check_word_status("ABCDEFG"), WordStatus::Panagram);
    assert_eq!(comb.check_word_status("ABCDEFGABCDEFG"), WordStatus::Panagram);
}

#[test]
fn test_classification_deterministic() {
    let comb = test_comb();
    let first = comb.check_word_status("CBGA");
    let second = comb.check_word_status("CBGA");
    assert_eq!(first, second);
    assert_eq!(comb.check_word_status("CBGZ"), comb.check_word_status("CBGZ"));
}

#[test]
fn test_derive_always_finds_the_only_pangram() {
    let word_list = test_word_list(&["AB", "ABCDEFG", "X"]);
    for _ in 0..40 {
        let comb = Comb::new_random(&word_list).expect("a pangram word exists");
        // The letter set can only come from "ABCDEFG".
        let mut letters: Vec<char> = vec![comb.center_char];
        letters.extend_from_slice(&comb.outer_chars);
        letters.sort();
        assert_eq!(letters, vec!['A', 'B', 'C', 'D', 'E', 'F', 'G']);
        // The found word is a pangram for the derived set.
        assert_eq!(comb.check_word_status("ABCDEFG"), WordStatus::Panagram);
    }
}

#[test]
fn test_derive_letter_set_shape() {
    let word_list = test_word_list(&["QQQ", "HGFEDCBA", "ABCDEFG"]);
    for _ in 0..40 {
        let comb = Comb::new_random(&word_list).expect("pangram words exist");
        // Six outer letters, all distinct, none of them the center letter.
        for i in 0..6 {
            assert_ne!(comb.outer_chars[i], comb.center_char);
            for j in 0..i {
                assert_ne!(comb.outer_chars[i], comb.outer_chars[j]);
            }
        }
    }
}

#[test]
fn test_derive_no_pangram_found() {
    let word_list = test_word_list(&["AB", "X", "AABBCC", "ABCDEFGH"]);
    for _ in 0..10 {
        assert_eq!(
            Comb::new_random(&word_list).unwrap_err(),
            DeriveError::NoPangramFound
        );
    }
}

#[test]
fn test_derive_empty_dictionary() {
    let word_list = test_word_list(&[]);
    assert_eq!(
        Comb::new_random(&word_list).unwrap_err(),
        DeriveError::EmptyDictionary
    );
}

#[test]
fn test_derive_single_word_dictionary() {
    let word_list = test_word_list(&["ABCDEFG"]);
    let comb = Comb::new_random(&word_list).expect("the only word qualifies");
    assert_eq!(comb.check_word_status("ABCDEFG"), WordStatus::Panagram);
}

#[test]
fn test_get_valid_words_drops_invalid_entries() {
    let comb = test_comb();
    let word_list = test_word_list(&["AB", "ABCDEFG", "X", "A", "AAAA"]);
    let valid_words = comb.get_valid_words(&word_list);
    let words: Vec<&str> = valid_words.iter().map(|v| v.word.as_str()).collect();
    assert_eq!(words, vec!["AB", "ABCDEFG", "A", "AAAA"]);
    for entry in &valid_words {
        assert!(!entry.is_found);
        assert_ne!(
            comb.check_word_status(&entry.word),
            WordStatus::NotValid
        );
        assert_eq!(
            entry.is_panagram,
            comb.check_word_status(&entry.word) == WordStatus::Panagram
        );
    }
    assert!(valid_words[1].is_panagram);
    assert_eq!(valid_words[1].point_value, 8);
    assert_eq!(valid_words[3].point_value, 1);
}
