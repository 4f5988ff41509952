use rust_repos::text::{ends_with, join, parse_u32, same_text};

#[test]
fn numbers_are_read_as_std_reads_them() {
    let texts = [
        "0", "7", "10", "007", "+5", "4294967295", "4294967296", "99999999999999999999", "", "+", "-",
        "-0", "++5", "+-5", " 5", "5 ", "5_0", "0x5", "5.0", "٣", "00000000000000000000042",
        "42949672950", "4294967295a",
    ];
    for text in texts {
        assert_eq!(parse_u32(text), text.parse::<u32>().ok(), "{}", text);
    }
    assert_eq!(parse_u32("4294967295"), Some(4294967295));
    assert_eq!(parse_u32("4294967296"), None);
}

#[test]
fn endings_are_found() {
    assert!(ends_with("src/main.rs", ".rs"));
    assert!(ends_with(".rs", ".rs"));
    assert!(!ends_with("rs", ".rs"));
    assert!(!ends_with("main.rs.bak", ".rs"));
    assert!(!ends_with("main.RS", ".rs"));
    assert!(ends_with("größe.rs", ".rs"));
    assert!(ends_with("anything", ""));
    assert!(ends_with("", ""));
}

#[test]
fn texts_are_compared() {
    assert!(same_text("rust-lang/book", "rust-lang/book"));
    assert!(!same_text("rust-lang/book", "rust-lang/Book"));
    assert!(!same_text("rust-lang/book", "rust-lang/books"));
    assert!(same_text("", ""));
}

#[test]
fn texts_are_joined() {
    let none: Vec<String> = Vec::new();
    assert_eq!(join(&none, "\n"), "");
    assert_eq!(join(&vec!["a/b".to_string()], "\n"), "a/b");
    let three = vec!["a/b".to_string(), "".to_string(), "c/d".to_string()];
    assert_eq!(join(&three, "\n"), "a/b\n\nc/d");
    assert_eq!(join(&three, ", "), three.join(", "));
}
