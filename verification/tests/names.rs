use unios::names::{
    cells_hold, is_name, make_name, matches_name, name_length, MAX_SIZE_DIRECTORY_NAME,
};

#[test]
fn a_name_has_ten_cells() {
    assert_eq!(MAX_SIZE_DIRECTORY_NAME, 10);
}

#[test]
fn text_ends_at_the_first_nul() {
    assert_eq!(name_length(b"docs\0\0\0\0\0\0"), 4);
    assert_eq!(name_length(b"docs"), 4);
    assert_eq!(name_length(b""), 0);
    assert_eq!(name_length(b"\0docs"), 0);
    assert_eq!(name_length(b"ab\0cd\0"), 2);
    assert_eq!(name_length(&[b'a'; 50]), 50);
}

#[test]
fn name_cells_are_filled_up_with_nul() {
    assert_eq!(make_name(b"docs"), *b"docs\0\0\0\0\0\0");
    assert_eq!(make_name(b"docs\0junk"), *b"docs\0\0\0\0\0\0");
    assert_eq!(make_name(b"0123456789"), *b"0123456789");
    assert_eq!(make_name(b"0123456789abc"), *b"0123456789");
    assert_eq!(make_name(b""), [0u8; 10]);
}

#[test]
fn a_query_finds_the_names_it_starts() {
    let docs = *b"docs\0\0\0\0\0\0";
    assert!(matches_name(b"docs", &docs));
    assert!(matches_name(b"docs\0\0\0", &docs));
    assert!(matches_name(b"do", &docs));
    assert!(matches_name(b"", &docs));
    assert!(!matches_name(b"docs2", &docs));
    assert!(!matches_name(b"Docs", &docs));
    assert!(!matches_name(b"xdocs", &docs));
}

#[test]
fn a_query_longer_than_a_name_finds_nothing() {
    let full = *b"0123456789";
    assert!(matches_name(b"0123456789", &full));
    assert!(!matches_name(b"0123456789a", &full));
    assert!(matches_name(b"0123456789\0a", &full));
}

#[test]
fn a_name_is_held_by_all_its_cells() {
    let docs = *b"docs\0\0\0\0\0\0";
    assert!(is_name(b"docs", &docs));
    assert!(is_name(b"docs\0junk", &docs));
    assert!(!is_name(b"doc", &docs));
    assert!(!is_name(b"docs2", &docs));
    assert!(!is_name(b"", &docs));
    assert!(is_name(b"", &[0u8; 10]));
    let full = *b"0123456789";
    assert!(is_name(b"0123456789", &full));
    assert!(!is_name(b"0123456789a", &full));
    assert!(!is_name(b"012345678", &full));
}

#[test]
fn cells_hold_bytes_and_nul_after_them() {
    assert!(cells_hold(b"ab", b"ab\0\0"));
    assert!(cells_hold(b"ab\0", b"ab\0\0"));
    assert!(!cells_hold(b"ab", b"ab\0c"));
    assert!(!cells_hold(b"abcde", b"abcd"));
    assert!(cells_hold(b"abcd", b"abcd"));
    assert!(cells_hold(b"", b""));
}
