use schema_diagnostics::lines::{nth_line, push_lines};

fn samples() -> Vec<&'static str> {
    vec![
        "",
        "\n",
        "\n\n",
        "a",
        "a\n",
        "a\nb",
        "a\nb\n",
        "a\n\nb\n",
        "\na",
        "a\r\nb\r\n",
        "a\r\nb",
        "a\rb\n",
        "a\r",
        "a\r\r\n",
        "\r\n",
        "\r",
        "\r\r",
        "\n\r",
        "\n\r\n",
        "type Query {\n  foo: Int\n}\n",
        "héllo\nwörld ✓\r\nλ",
        "  indented\n\ttabbed\n   \n",
    ]
}

#[test]
fn nth_line_finds_each_line() {
    let text = "type Query {\n  foo: Int\n}\n";
    assert_eq!(Some("type Query {"), nth_line(text, 0));
    assert_eq!(Some("  foo: Int"), nth_line(text, 1));
    assert_eq!(Some("}"), nth_line(text, 2));
    assert_eq!(None, nth_line(text, 3));
    assert_eq!(None, nth_line(text, usize::MAX));
}

#[test]
fn nth_line_of_empty_text_is_none() {
    assert_eq!(None, nth_line("", 0));
    assert_eq!(None, nth_line("", 1));
}

#[test]
fn nth_line_drops_the_line_ending() {
    assert_eq!(Some("a"), nth_line("a\r\nb", 0));
    assert_eq!(Some("b"), nth_line("a\r\nb", 1));
    assert_eq!(Some("a\rb"), nth_line("a\rb\n", 0));
    assert_eq!(Some("a\r"), nth_line("a\r\r\n", 0));
    assert_eq!(Some(""), nth_line("\r\n", 0));
    assert_eq!(None, nth_line("\r\n", 1));
}

#[test]
fn nth_line_keeps_a_carriage_return_at_the_very_end() {
    assert_eq!(Some("a\r"), nth_line("a\r", 0));
    assert_eq!(Some("\r"), nth_line("\n\r", 1));
}

#[test]
fn nth_line_counts_empty_lines() {
    assert_eq!(Some(""), nth_line("\n\n", 0));
    assert_eq!(Some(""), nth_line("\n\n", 1));
    assert_eq!(None, nth_line("\n\n", 2));
    assert_eq!(Some(""), nth_line("a\n\nb\n", 1));
    assert_eq!(Some("b"), nth_line("a\n\nb\n", 2));
}

#[test]
fn nth_line_agrees_with_std_lines() {
    for text in samples() {
        let expected: Vec<&str> = text.lines().collect();
        for index in 0..expected.len() + 2 {
            assert_eq!(expected.get(index).copied(), nth_line(text, index));
        }
    }
}

#[test]
fn push_lines_ends_every_line_with_a_line_feed() {
    let mut out = String::from("> ");
    push_lines(&mut out, "a\r\nb\n\nc");
    assert_eq!("> a\nb\n\nc\n", out);
}

#[test]
fn push_lines_of_empty_text_adds_nothing() {
    let mut out = String::from("kept");
    push_lines(&mut out, "");
    assert_eq!("kept", out);
}

#[test]
fn push_lines_agrees_with_std_lines() {
    for text in samples() {
        let mut expected = String::from("x");
        for line in text.lines() {
            expected.push_str(line);
            expected.push('\n');
        }
        let mut out = String::from("x");
        push_lines(&mut out, text);
        assert_eq!(expected, out);
    }
}
