use schema_diagnostics::indent::{indent, push_spaces};

#[test]
fn indent_by_zero_changes_nothing() {
    assert_eq!("", indent("", 0));
    assert_eq!("abc", indent("abc", 0));
    assert_eq!("  abc ", indent("  abc ", 0));
}

#[test]
fn indent_puts_spaces_in_front() {
    assert_eq!(" ", indent("", 1));
    assert_eq!("    ", indent("", 4));
    assert_eq!("    type Query {", indent("type Query {", 4));
    assert_eq!("   \tx", indent("\tx", 3));
}

#[test]
fn indent_adds_its_size_to_the_length() {
    let texts = ["", "a", "foo: Int", "  leading", "trailing  ", "héllo ✓"];
    for text in texts {
        for size in 0..12 {
            let padded = indent(text, size);
            assert_eq!(text.chars().count() + size, padded.chars().count());
            assert_eq!(text.len() + size, padded.len());
            assert!(padded.chars().take(size).all(|c| c == ' '));
            assert_eq!(text, &padded[size..]);
        }
    }
}

#[test]
fn push_spaces_appends_that_many() {
    let mut out = String::from("|");
    push_spaces(&mut out, 0);
    assert_eq!("|", out);
    push_spaces(&mut out, 3);
    assert_eq!("|   ", out);
    push_spaces(&mut out, 1);
    assert_eq!("|    ", out);
}
