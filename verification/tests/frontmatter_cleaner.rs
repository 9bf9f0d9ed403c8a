use saaru::remove_frontmatter;

#[test]
fn test_frontmatter_cleaner() {
    let non_cleaned_string: &str = "---\nthis should not be there\n---\nthis is okay";
    let cleaned_string: &str = "this is okay";

    assert_eq!(cleaned_string.to_owned(), remove_frontmatter(non_cleaned_string))
}

#[test]
fn test_frontmatter_cleaner_multiple_segment() {
    let non_cleaned_string: &str =
        "---\nthis should not be there\n---\nthis is okay\n---\nthis should make it in";
    let cleaned_string: &str = "this is okay\n---\nthis should make it in";

    assert_eq!(cleaned_string.to_owned(), remove_frontmatter(non_cleaned_string))
}

#[test]
fn test_frontmatter_cleaner_multiple_segment_tables() {
    let non_cleaned_string: &str =
        "---\nthis should not be there\n---\nthis is okay\n---\nthis should make it in\n---";
    let cleaned_string: &str = "this is okay\n---\nthis should make it in\n---";

    assert_eq!(cleaned_string.to_owned(), remove_frontmatter(non_cleaned_string))
}

#[test]
fn frontmatter_cleaner_without_frontmatter_drops_first_line() {
    assert_eq!("def".to_owned(), remove_frontmatter("abc\ndef"));
}

#[test]
fn frontmatter_cleaner_unclosed_block_consumes_everything() {
    assert_eq!(String::new(), remove_frontmatter("---\ntitle: lost\nbody that never starts"));
}

#[test]
fn frontmatter_cleaner_collapses_empty_lines() {
    assert_eq!(
        "one\ntwo".to_owned(),
        remove_frontmatter("---\nx\n---\none\n\ntwo"),
    );
}

#[test]
fn frontmatter_cleaner_empty_input() {
    assert_eq!(String::new(), remove_frontmatter(""));
}
