use panama::pig_latin::{in_vowels, is_vowel, pig_latin};

#[test]
fn test_pig_latin() {
    assert_eq!(pig_latin("apple").unwrap(), "apple-hay".to_string());
    assert_eq!(pig_latin("first").unwrap(), "irst-fay".to_string());
}

#[test]
fn test_pig_latin_single_char() {
    assert_eq!(pig_latin("f").unwrap(), "fay".to_string());
    assert_eq!(pig_latin("क").unwrap(), "कay".to_string());
}

#[test]
fn test_pig_latin_unicode() {
    assert_eq!(pig_latin("नमस्कार").unwrap(), "मस्कार-नay".to_string());
}

#[test]
fn test_pig_latin_zero_length() {
    assert_eq!(pig_latin(""), None);
}

#[test]
fn upper_case_vowels_count() {
    assert!(is_vowel(&'E'));
    assert!(is_vowel(&'u'));
    assert!(!is_vowel(&'y'));
    assert_eq!(pig_latin("Otter").unwrap(), "Otter-hay".to_string());
    assert_eq!(pig_latin("a").unwrap(), "a-hay".to_string());
}

#[test]
fn vowel_runs() {
    assert!(in_vowels("a"));
    assert!(in_vowels("io"));
    assert!(in_vowels("aeiou"));
    assert!(!in_vowels("ai"));
    assert!(!in_vowels("aeioux"));
    assert!(!in_vowels("A"));
}
