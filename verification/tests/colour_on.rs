use schema_diagnostics::error::{Error, Position};
use schema_diagnostics::kind::ErrorKind;

#[test]
fn label_and_caret_are_bright_red_where_colour_is_on() {
    colored::control::set_override(true);
    let error = Error {
        pos: Position { line: 2, column: 5 },
        kind: ErrorKind::DirectivesNotSupported,
        raw_schema: "type Query {\n  foo: Int\n}\n",
    };
    let expected = "\u{1b}[91merror\u{1b}[0m: Directives are currently not supported\n \
                    --> schema:2:5\n  \
                    |\n\
                    2 |      foo: Int\n  \
                    |        \u{1b}[91m^\u{1b}[0m\n";
    assert_eq!(Ok(expected.to_string()), error.render());
}
