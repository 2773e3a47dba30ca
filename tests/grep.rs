use panama::grep::{matching_lines, select_matching};

#[test]
fn matching_lines_keep_order() {
    assert_eq!(matching_lines("lorem ipsum\ndolor sit amet", "lorem"), vec!["lorem ipsum"]);
    assert_eq!(
        matching_lines("a cat\nno\r\ncatalog\n\ncat", "cat"),
        vec!["a cat", "catalog", "cat"]
    );
    assert!(matching_lines("", "x").is_empty());
    assert_eq!(matching_lines("x\ny", ""), vec!["x", "y"]);
}

#[test]
fn select_matching_filters_given_lines() {
    let lines = vec!["alpha", "beta", "alphabet"];
    assert_eq!(select_matching(&lines, "alpha"), vec!["alpha", "alphabet"]);
    assert!(select_matching(&lines, "gamma").is_empty());
}
