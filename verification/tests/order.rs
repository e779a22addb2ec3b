use std::cmp::Ordering;

use schema_diagnostics::error::{Error, Position};
use schema_diagnostics::kind::ErrorKind;
use schema_diagnostics::order::compare_text;

fn mismatch<'a>(names: [&'a str; 6]) -> ErrorKind<'a> {
    ErrorKind::UnionFieldTypeMismatch {
        union_name: names[0],
        field_name: names[1],
        type_a: names[2],
        field_type_a: names[3],
        type_b: names[4],
        field_type_b: names[5],
    }
}

fn kinds() -> Vec<ErrorKind<'static>> {
    vec![
        ErrorKind::DateTimeScalarNotDefined,
        ErrorKind::DateScalarNotDefined,
        ErrorKind::DirectivesNotSupported,
        ErrorKind::NoQueryType,
        ErrorKind::NonnullableFieldWithDefaultValue,
        ErrorKind::NullDefaultValue,
        ErrorKind::ObjectArgumentWithDefaultValue,
        ErrorKind::SubscriptionsNotSupported,
        ErrorKind::TypeExtensionNotSupported,
        mismatch(["Foo", "bar", "A", "Int", "B", "String"]),
        mismatch(["Foo", "bar", "A", "Int", "B", "Strin"]),
        mismatch(["Foo", "bar", "A", "Int", "C", "Bool"]),
        mismatch(["Foo", "bar", "A", "Id", "B", "String"]),
        mismatch(["Foo", "bar", "", "Int", "B", "String"]),
        mismatch(["Foo", "baz", "A", "Int", "B", "String"]),
        mismatch(["Fop", "bar", "A", "Int", "B", "String"]),
        mismatch(["", "", "", "", "", ""]),
        ErrorKind::UnsupportedAttribute(""),
        ErrorKind::UnsupportedAttribute("a"),
        ErrorKind::UnsupportedAttribute("ownership"),
        ErrorKind::UnsupportedAttribute("ownershiq"),
        ErrorKind::UnsupportedAttributePair("ownership", "borrowed"),
        ErrorKind::UnsupportedAttributePair("ownership", "owned"),
        ErrorKind::UnsupportedAttributePair("date", "owned"),
        ErrorKind::UnsupportedAttributePair("", ""),
        ErrorKind::VariableDefaultValue,
    ]
}

#[test]
fn texts_compare_as_strings_do() {
    let texts = [
        "", "a", "A", "ab", "abc", "abd", "b", "ba", "é", "e", "z", "λ", "λx", "✓", "𝄞", "\u{7f}",
        "\u{80}", "\u{7ff}", "\u{800}", "\u{ffff}", "\u{10000}", "a\n", "a ", "Int", "String",
    ];
    for a in texts {
        for b in texts {
            assert_eq!(a.cmp(b), compare_text(a, b), "{:?} and {:?}", a, b);
        }
    }
}

#[test]
fn texts_compare_by_their_first_difference() {
    assert_eq!(Ordering::Equal, compare_text("", ""));
    assert_eq!(Ordering::Less, compare_text("", "a"));
    assert_eq!(Ordering::Greater, compare_text("a", ""));
    assert_eq!(Ordering::Less, compare_text("abc", "abd"));
    assert_eq!(Ordering::Greater, compare_text("abd", "abc"));
    assert_eq!(Ordering::Less, compare_text("ab", "abc"));
    assert_eq!(Ordering::Less, compare_text("Z", "a"));
    assert_eq!(Ordering::Equal, compare_text("type", "type"));
}

#[test]
fn positions_compare_by_line_then_column() {
    let at = |line, column| Position { line, column };
    assert_eq!(Ordering::Less, at(1, 9).compare(&at(2, 1)));
    assert_eq!(Ordering::Greater, at(2, 1).compare(&at(1, 9)));
    assert_eq!(Ordering::Less, at(2, 1).compare(&at(2, 2)));
    assert_eq!(Ordering::Greater, at(2, 3).compare(&at(2, 2)));
    assert_eq!(Ordering::Equal, at(2, 2).compare(&at(2, 2)));
    for a in [at(0, 0), at(1, 1), at(1, 2), at(2, 1), at(10, 3), at(usize::MAX, 0)] {
        for b in [at(0, 0), at(1, 1), at(1, 2), at(2, 1), at(10, 3), at(usize::MAX, 0)] {
            assert_eq!(a.cmp(&b), a.compare(&b));
        }
    }
}

#[test]
fn kinds_rank_as_they_are_declared() {
    let ranks: Vec<usize> = [
        ErrorKind::DateTimeScalarNotDefined,
        ErrorKind::DateScalarNotDefined,
        ErrorKind::DirectivesNotSupported,
        ErrorKind::NoQueryType,
        ErrorKind::NonnullableFieldWithDefaultValue,
        ErrorKind::NullDefaultValue,
        ErrorKind::ObjectArgumentWithDefaultValue,
        ErrorKind::SubscriptionsNotSupported,
        ErrorKind::TypeExtensionNotSupported,
        mismatch(["Foo", "bar", "A", "Int", "B", "String"]),
        ErrorKind::UnsupportedAttribute("ownership"),
        ErrorKind::UnsupportedAttributePair("ownership", "borrowed"),
        ErrorKind::VariableDefaultValue,
    ]
    .iter()
    .map(|kind| kind.rank())
    .collect();
    assert_eq!((0..13).collect::<Vec<usize>>(), ranks);
}

#[test]
fn kinds_compare_as_the_derived_order_does() {
    let kinds = kinds();
    for a in &kinds {
        for b in &kinds {
            assert_eq!(a.cmp(b), a.compare(b), "{:?} and {:?}", a, b);
        }
    }
}

#[test]
fn kinds_compare_by_rank_then_names() {
    assert_eq!(
        Ordering::Less,
        ErrorKind::DateTimeScalarNotDefined.compare(&ErrorKind::DateScalarNotDefined)
    );
    assert_eq!(
        Ordering::Greater,
        ErrorKind::VariableDefaultValue.compare(&ErrorKind::UnsupportedAttribute("zzz"))
    );
    assert_eq!(
        Ordering::Less,
        ErrorKind::UnsupportedAttribute("a").compare(&ErrorKind::UnsupportedAttribute("b"))
    );
    assert_eq!(
        Ordering::Greater,
        ErrorKind::UnsupportedAttributePair("a", "z")
            .compare(&ErrorKind::UnsupportedAttributePair("a", "y"))
    );
    assert_eq!(
        Ordering::Less,
        ErrorKind::UnsupportedAttributePair("a", "z")
            .compare(&ErrorKind::UnsupportedAttributePair("b", "a"))
    );
    assert_eq!(
        Ordering::Less,
        mismatch(["Foo", "bar", "A", "Int", "B", "String"])
            .compare(&mismatch(["Foo", "bar", "A", "Int", "B", "Text"]))
    );
    assert_eq!(
        Ordering::Equal,
        mismatch(["Foo", "bar", "A", "Int", "B", "String"])
            .compare(&mismatch(["Foo", "bar", "A", "Int", "B", "String"]))
    );
}

#[test]
fn errors_compare_by_position_then_kind_then_schema() {
    let make = |line, column, kind, raw_schema| Error {
        pos: Position { line, column },
        kind,
        raw_schema,
    };
    let early = make(1, 7, ErrorKind::VariableDefaultValue, "zzz");
    let late = make(2, 1, ErrorKind::DateTimeScalarNotDefined, "aaa");
    assert_eq!(Ordering::Less, early.compare(&late));
    assert_eq!(Ordering::Greater, late.compare(&early));

    let first = make(2, 1, ErrorKind::DirectivesNotSupported, "zzz");
    let second = make(2, 1, ErrorKind::NoQueryType, "aaa");
    assert_eq!(Ordering::Less, first.compare(&second));

    let here = make(2, 1, ErrorKind::NoQueryType, "aaa");
    let there = make(2, 1, ErrorKind::NoQueryType, "aab");
    assert_eq!(Ordering::Less, here.compare(&there));
    assert_eq!(Ordering::Equal, here.compare(&second));
}

#[test]
fn errors_compare_as_the_derived_order_does() {
    let mut errors = Vec::new();
    for (line, column) in [(1, 1), (1, 2), (2, 1), (10, 1)] {
        for raw_schema in ["", "type Query", "type Quers"] {
            for kind in kinds().into_iter().step_by(3) {
                errors.push(Error {
                    pos: Position { line, column },
                    kind,
                    raw_schema,
                });
            }
        }
    }
    for a in &errors {
        for b in &errors {
            assert_eq!(a.cmp(b), a.compare(b));
            assert_eq!(a == b, a.compare(b) == Ordering::Equal);
        }
    }
}

#[test]
fn sorting_by_compare_gives_the_order_of_report() {
    let schema = "type Query {\n  foo: Int\n}\n";
    let make = |line, column, kind| Error {
        pos: Position { line, column },
        kind,
        raw_schema: schema,
    };
    let mut errors = vec![
        make(3, 1, ErrorKind::NoQueryType),
        make(1, 6, ErrorKind::UnsupportedAttribute("b")),
        make(2, 3, ErrorKind::VariableDefaultValue),
        make(1, 6, ErrorKind::UnsupportedAttribute("a")),
        make(1, 6, ErrorKind::DirectivesNotSupported),
        make(1, 2, ErrorKind::VariableDefaultValue),
    ];
    errors.sort_by(|a, b| a.compare(b));
    let order: Vec<(usize, usize, usize)> = errors
        .iter()
        .map(|e| (e.pos.line, e.pos.column, e.kind.rank()))
        .collect();
    assert_eq!(
        vec![(1, 2, 12), (1, 6, 2), (1, 6, 10), (1, 6, 10), (2, 3, 12), (3, 1, 3)],
        order
    );
    assert_eq!(ErrorKind::UnsupportedAttribute("a"), errors[2].kind);
    assert_eq!(ErrorKind::UnsupportedAttribute("b"), errors[3].kind);
}
