use spelling_bee::utils::{get_point_value, get_unique_letters};
use spelling_bee::valid_word::ValidWord;

#[test]
fn test_point_value_formula() {
    // Words of three characters or fewer are worth nothing.
    assert_eq!(get_point_value("", false), 0);
    assert_eq!(get_point_value("AB", false), 0);
    assert_eq!(get_point_value("ABC", false), 0);
    assert_eq!(get_point_value("ABC", true), 0);
    // Longer words are worth their length less three.
    assert_eq!(get_point_value("ABCD", false), 1);
    assert_eq!(get_point_value("ABCDE", false), 2);
    // A pangram is worth double.
    assert_eq!(get_point_value("ABCD", true), 2);
    assert_eq!(get_point_value("ABCDE", true), 4);
}

#[test]
fn test_point_value_scenario() {
    // "ABCDEFG" has seven characters: 7 - 3 = 4, doubled to 8 as a pangram.
    assert_eq!(get_point_value("ABCDEFG", false), 4);
    assert_eq!(get_point_value("ABCDEFG", true), 8);
}

#[test]
fn test_point_value_counts_characters_not_bytes() {
    // Five characters, more than five bytes: still 5 - 3 = 2 points.
    let word = "ÅÄÖÜÉ";
    assert!(word.len() > 5);
    assert_eq!(get_point_value(word, false), 2);
    assert_eq!(get_point_value(word, true), 4);
}

#[test]
fn test_unique_letters_order_and_dedup() {
    assert_eq!(get_unique_letters("ABAC"), vec!['A', 'B', 'C']);
    assert_eq!(get_unique_letters(""), Vec::<char>::new());
    assert_eq!(get_unique_letters("AAAA"), vec!['A']);
    assert_eq!(
        get_unique_letters("GFEDCBAABCDEFG"),
        vec!['G', 'F', 'E', 'D', 'C', 'B', 'A']
    );
}

#[test]
fn test_new_unfound_entry() {
    let entry = ValidWord::new_unfound("ABCDEFG".to_string(), true);
    assert_eq!(entry.word, "ABCDEFG");
    assert!(!entry.is_found);
    assert!(entry.is_panagram);
    assert_eq!(entry.point_value, 8);

    let plain = ValidWord::new_unfound("AB".to_string(), false);
    assert_eq!(plain.word, "AB");
    assert!(!plain.is_found);
    assert!(!plain.is_panagram);
    assert_eq!(plain.point_value, 0);
}
