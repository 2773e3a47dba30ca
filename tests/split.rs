use panama::split::{strtok, until_char, StrSplit};

#[test]
fn lib_it_works() {
    let haystack = "a b c d e";
    let mut split = StrSplit::new(haystack, " ");
    let letters: Vec<_> = std::iter::from_fn(|| split.next()).collect();
    assert_eq!(letters, vec!["a", "b", "c", "d", "e"]);
}

#[test]
fn delimiter_on_tail_returns_empty() {
    let haystack = "a b c d ";
    let mut split = StrSplit::new(haystack, " ");
    let letters: Vec<_> = std::iter::from_fn(|| split.next()).collect();
    assert_eq!(letters, vec!["a", "b", "c", "d", ""]);
}

#[test]
fn until_char_works() {
    assert_eq!(until_char("hello world", 'o'), "hell");
    assert_eq!(until_char("hello world", 'z'), "hello world");
}

#[test]
fn strtok_it_works() {
    let mut x = "hello world";
    let hello = strtok(&mut x, ' ');
    assert_eq!(hello, "hello");
    assert_eq!(x, "world");
}

#[test]
fn strtok_without_delimiter_takes_all() {
    let mut x = "héllo";
    assert_eq!(strtok(&mut x, ' '), "héllo");
    assert_eq!(x, "");
    assert_eq!(strtok(&mut x, ' '), "");
}

#[test]
fn split_on_longer_and_multibyte_delimiters() {
    let mut split = StrSplit::new("one, two,, three", ", ");
    let parts: Vec<_> = std::iter::from_fn(|| split.next()).collect();
    assert_eq!(parts, vec!["one", "two,", "three"]);
    let mut by_char = StrSplit::new("añbñ", 'ñ');
    let parts: Vec<_> = std::iter::from_fn(|| by_char.next()).collect();
    assert_eq!(parts, vec!["a", "b", ""]);
    let mut empty = StrSplit::new("", ',');
    assert_eq!(empty.next(), Some(""));
    assert_eq!(empty.next(), None);
}
