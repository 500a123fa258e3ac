use ldot::text::{has_space, split_at_spaces};

fn owned(parts: &[&str]) -> Vec<String> {
    parts.iter().map(|p| p.to_string()).collect()
}

#[test]
fn split_cuts_at_each_space() {
    assert_eq!(split_at_spaces("cargo build --release"), owned(&["cargo", "build", "--release"]));
}

#[test]
fn split_of_a_word_is_the_word() {
    assert_eq!(split_at_spaces("ls"), owned(&["ls"]));
}

#[test]
fn split_of_the_empty_line_is_one_empty_piece() {
    assert_eq!(split_at_spaces(""), owned(&[""]));
}

#[test]
fn split_keeps_empty_pieces() {
    assert_eq!(split_at_spaces("a  b"), owned(&["a", "", "b"]));
    assert_eq!(split_at_spaces(" a"), owned(&["", "a"]));
    assert_eq!(split_at_spaces("a "), owned(&["a", ""]));
    assert_eq!(split_at_spaces(" "), owned(&["", ""]));
}

#[test]
fn split_knows_no_quotes() {
    assert_eq!(
        split_at_spaces("echo \"hello world\""),
        owned(&["echo", "\"hello", "world\""])
    );
}

#[test]
fn split_cuts_at_spaces_only() {
    assert_eq!(split_at_spaces("a\tb\nc"), owned(&["a\tb\nc"]));
}

#[test]
fn split_counts_characters_not_bytes() {
    assert_eq!(split_at_spaces("é ü"), owned(&["é", "ü"]));
}

#[test]
fn split_pieces_joined_by_spaces_give_the_line() {
    for line in ["", " ", "a b", "  x  y ", "echo hi"] {
        let parts = split_at_spaces(line);
        assert!(!parts.is_empty());
        assert!(parts.iter().all(|p| !p.contains(' ')));
        assert_eq!(parts.join(" "), line);
    }
}

#[test]
fn has_space_finds_a_space() {
    assert!(has_space("my stack"));
    assert!(has_space(" "));
    assert!(has_space("end "));
}

#[test]
fn has_space_is_false_without_one() {
    assert!(!has_space(""));
    assert!(!has_space("web"));
    assert!(!has_space("tab\there"));
}
