use prism::picker::normalize_picked_dir;

#[test]
fn strips_the_line_terminator_and_trailing_separator() {
    assert_eq!(normalize_picked_dir("/Users/me/proj/\n"), "/Users/me/proj");
}

#[test]
fn keeps_a_clean_path_as_it_is() {
    assert_eq!(normalize_picked_dir("/a/b"), "/a/b");
}

#[test]
fn strips_surrounding_whitespace_and_all_trailing_separators() {
    assert_eq!(normalize_picked_dir("  /a/b// \t\n"), "/a/b");
    assert_eq!(normalize_picked_dir("\n"), "");
    assert_eq!(normalize_picked_dir(""), "");
    assert_eq!(normalize_picked_dir(" /// "), "");
}
