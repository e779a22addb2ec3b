//! The kinds of error that analysing a schema can report, and what each one
//! says.

use vstd::prelude::*;
use vstd::string::StringExecFns;

use crate::lines::{lemma_single_line, lines, single_line};

verus! {

/// What went wrong. Names that a kind carries are borrowed from the schema.
#[derive(Debug, Eq, PartialEq, Ord, PartialOrd)]
pub enum ErrorKind<'doc> {
    DateTimeScalarNotDefined,
    DateScalarNotDefined,
    DirectivesNotSupported,
    NoQueryType,
    NonnullableFieldWithDefaultValue,
    NullDefaultValue,
    ObjectArgumentWithDefaultValue,
    SubscriptionsNotSupported,
    TypeExtensionNotSupported,
    /// Two types of a union declare the same field with different types.
    UnionFieldTypeMismatch {
        union_name: &'doc str,
        field_name: &'doc str,
        type_a: &'doc str,
        field_type_a: &'doc str,
        type_b: &'doc str,
        field_type_b: &'doc str,
    },
    /// The attribute's name.
    UnsupportedAttribute(&'doc str),
    /// The attribute's name, then the value it was given.
    UnsupportedAttributePair(&'doc str, &'doc str),
    VariableDefaultValue,
}

/// An [`ErrorKind`] with the text of every name it carries.
pub enum KindView {
    DateTimeScalarNotDefined,
    DateScalarNotDefined,
    DirectivesNotSupported,
    NoQueryType,
    NonnullableFieldWithDefaultValue,
    NullDefaultValue,
    ObjectArgumentWithDefaultValue,
    SubscriptionsNotSupported,
    TypeExtensionNotSupported,
    UnionFieldTypeMismatch {
        union_name: Seq<char>,
        field_name: Seq<char>,
        type_a: Seq<char>,
        field_type_a: Seq<char>,
        type_b: Seq<char>,
        field_type_b: Seq<char>,
    },
    UnsupportedAttribute(Seq<char>),
    UnsupportedAttributePair(Seq<char>, Seq<char>),
    VariableDefaultValue,
}

impl<'doc> View for ErrorKind<'doc> {
    type V = KindView;

    open spec fn view(&self) -> KindView {
        match *self {
            ErrorKind::DateTimeScalarNotDefined => KindView::DateTimeScalarNotDefined,
            ErrorKind::DateScalarNotDefined => KindView::DateScalarNotDefined,
            ErrorKind::DirectivesNotSupported => KindView::DirectivesNotSupported,
            ErrorKind::NoQueryType => KindView::NoQueryType,
            ErrorKind::NonnullableFieldWithDefaultValue => {
                KindView::NonnullableFieldWithDefaultValue
            },
            ErrorKind::NullDefaultValue => KindView::NullDefaultValue,
            ErrorKind::ObjectArgumentWithDefaultValue => KindView::ObjectArgumentWithDefaultValue,
            ErrorKind::SubscriptionsNotSupported => KindView::SubscriptionsNotSupported,
            ErrorKind::TypeExtensionNotSupported => KindView::TypeExtensionNotSupported,
            ErrorKind::UnionFieldTypeMismatch {
                union_name,
                field_name,
                type_a,
                field_type_a,
                type_b,
                field_type_b,
            } => KindView::UnionFieldTypeMismatch {
                union_name: union_name@,
                field_name: field_name@,
                type_a: type_a@,
                field_type_a: field_type_a@,
                type_b: type_b@,
                field_type_b: field_type_b@,
            },
            ErrorKind::UnsupportedAttribute(attr) => KindView::UnsupportedAttribute(attr@),
            ErrorKind::UnsupportedAttributePair(attr, value) => {
                KindView::UnsupportedAttributePair(attr@, value@)
            },
            ErrorKind::VariableDefaultValue => KindView::VariableDefaultValue,
        }
    }
}

impl KindView {
    /// The one-line summary of the kind. Names are put in as they are.
    pub open spec fn description(self) -> Seq<char> {
        match self {
            KindView::DateTimeScalarNotDefined => {
                "You have to define a custom scalar called `DateTime` to use this type"@
            },
            KindView::DateScalarNotDefined => {
                "You have to define a custom scalar called `Date` to use this type"@
            },
            KindView::DirectivesNotSupported => "Directives are currently not supported"@,
            KindView::NoQueryType => "Schema doesn't have root a Query type"@,
            KindView::NonnullableFieldWithDefaultValue => {
                "Fields with default arguments values must be nullable"@
            },
            KindView::NullDefaultValue => {
                "Having a default argument value of `null` is not supported. Use a nullable type instead"@
            },
            KindView::ObjectArgumentWithDefaultValue => {
                "Default arguments where the type is an object is currently not supported"@
            },
            KindView::SubscriptionsNotSupported => "Subscriptions are currently not supported"@,
            KindView::TypeExtensionNotSupported => "Type extentions are not supported"@,
            KindView::UnionFieldTypeMismatch { union_name, .. } => {
                "Error while generating `QueryTrail` for union `"@ + union_name + "`"@
            },
            KindView::UnsupportedAttribute(attr) => {
                "The attribute "@ + attr + " is unsupported"@
            },
            KindView::UnsupportedAttributePair(attr, value) => {
                "Unsupported attribute value '"@ + value + "' for attribute '"@ + attr + "'"@
            },
            KindView::VariableDefaultValue => "Default arguments cannot refer to variables"@,
        }
    }

    /// The further explanation of the kind, for the kinds that have one.
    pub open spec fn notes(self) -> Option<Seq<char>> {
        match self {
            KindView::SubscriptionsNotSupported => Some(
                "Subscriptions are currently not supported by Juniper so we're unsure when\nor if we'll support them"@,
            ),
            KindView::UnionFieldTypeMismatch {
                union_name,
                field_name,
                type_a,
                field_type_a,
                type_b,
                field_type_b,
            } => Some(
                mismatch_summary(field_name, type_a, type_b) + mismatch_detail(
                    field_name,
                    type_a,
                    field_type_a,
                ) + mismatch_detail(field_name, type_b, field_type_b) + mismatch_consequence(
                    union_name,
                    field_name,
                ) + mismatch_dilemma(union_name, type_a, field_type_a, type_b, field_type_b),
            ),
            KindView::DateTimeScalarNotDefined => Some(
                "Insert `scalar DateTime` into your schema"@,
            ),
            KindView::DateScalarNotDefined => Some("Insert `scalar Date` into your schema"@),
            _ => None,
        }
    }

    /// The names that the kind carries, in the order of its fields.
    pub open spec fn names(self) -> Seq<Seq<char>> {
        match self {
            KindView::UnionFieldTypeMismatch {
                union_name,
                field_name,
                type_a,
                field_type_a,
                type_b,
                field_type_b,
            } => seq![union_name, field_name, type_a, field_type_a, type_b, field_type_b],
            KindView::UnsupportedAttribute(attr) => seq![attr],
            KindView::UnsupportedAttributePair(attr, value) => seq![attr, value],
            _ => Seq::empty(),
        }
    }

    /// The place of the kind among all kinds, in the order of their
    /// declaration, from zero.
    pub open spec fn rank(self) -> usize {
        match self {
            KindView::DateTimeScalarNotDefined => 0,
            KindView::DateScalarNotDefined => 1,
            KindView::DirectivesNotSupported => 2,
            KindView::NoQueryType => 3,
            KindView::NonnullableFieldWithDefaultValue => 4,
            KindView::NullDefaultValue => 5,
            KindView::ObjectArgumentWithDefaultValue => 6,
            KindView::SubscriptionsNotSupported => 7,
            KindView::TypeExtensionNotSupported => 8,
            KindView::UnionFieldTypeMismatch { .. } => 9,
            KindView::UnsupportedAttribute(_) => 10,
            KindView::UnsupportedAttributePair(_, _) => 11,
            KindView::VariableDefaultValue => 12,
        }
    }

    /// Whether none of the names that the kind carries holds a line feed.
    pub open spec fn names_single_line(self) -> bool {
        forall|i: int| 0 <= i < self.names().len() ==> single_line(#[trigger] self.names()[i])
    }
}

/// First line of the notes on a mismatch: the two fields differ.
pub open spec fn mismatch_summary(
    field_name: Seq<char>,
    type_a: Seq<char>,
    type_b: Seq<char>,
) -> Seq<char> {
    "`"@ + type_a + "."@ + field_name + "` and `"@ + type_b + "."@ + field_name
        + "` are not the same type\n"@
}

/// Second and third line of the notes on a mismatch: the type of one field.
pub open spec fn mismatch_detail(
    field_name: Seq<char>,
    owner: Seq<char>,
    field_type: Seq<char>,
) -> Seq<char> {
    "    `"@ + owner + "."@ + field_name + "` is of type `"@ + field_type + "`\n"@
}

/// Fourth line of the notes on a mismatch: the method that cannot be
/// generated.
pub open spec fn mismatch_consequence(union_name: Seq<char>, field_name: Seq<char>) -> Seq<char> {
    "That makes it impossible to generate code for the method `QueryTrail<_, "@ + union_name
        + ", _>::"@ + field_name + "()`\n"@
}

/// Fifth line of the notes on a mismatch: what the method would have to
/// return for either type.
pub open spec fn mismatch_dilemma(
    union_name: Seq<char>,
    type_a: Seq<char>,
    field_type_a: Seq<char>,
    type_b: Seq<char>,
    field_type_b: Seq<char>,
) -> Seq<char> {
    "It would have to return `"@ + field_type_a + "` if `"@ + union_name + "` is `"@ + type_a
        + ",` but `"@ + field_type_b + "` if it is a `"@ + type_b + "`\n"@
}

impl<'doc> ErrorKind<'doc> {
    /// The place of the kind among all kinds, in the order of their
    /// declaration, from zero.
    pub fn rank(&self) -> (place: usize)
        ensures
            place == self@.rank(),
    {
        match self {
            ErrorKind::DateTimeScalarNotDefined => 0,
            ErrorKind::DateScalarNotDefined => 1,
            ErrorKind::DirectivesNotSupported => 2,
            ErrorKind::NoQueryType => 3,
            ErrorKind::NonnullableFieldWithDefaultValue => 4,
            ErrorKind::NullDefaultValue => 5,
            ErrorKind::ObjectArgumentWithDefaultValue => 6,
            ErrorKind::SubscriptionsNotSupported => 7,
            ErrorKind::TypeExtensionNotSupported => 8,
            ErrorKind::UnionFieldTypeMismatch { .. } => 9,
            ErrorKind::UnsupportedAttribute(_) => 10,
            ErrorKind::UnsupportedAttributePair(_, _) => 11,
            ErrorKind::VariableDefaultValue => 12,
        }
    }

    /// A one-line summary of what went wrong.
    pub fn description(&self) -> (text: String)
        ensures
            text@ == self@.description(),
    {
        match self {
            ErrorKind::DateTimeScalarNotDefined => String::from_str(
                "You have to define a custom scalar called `DateTime` to use this type",
            ),
            ErrorKind::DateScalarNotDefined => String::from_str(
                "You have to define a custom scalar called `Date` to use this type",
            ),
            ErrorKind::DirectivesNotSupported => String::from_str(
                "Directives are currently not supported",
            ),
            ErrorKind::SubscriptionsNotSupported => String::from_str(
                "Subscriptions are currently not supported",
            ),
            ErrorKind::NoQueryType => String::from_str("Schema doesn't have root a Query type"),
            ErrorKind::NonnullableFieldWithDefaultValue => String::from_str(
                "Fields with default arguments values must be nullable",
            ),
            ErrorKind::UnsupportedAttribute(attr) => {
                let mut text = String::from_str("The attribute ");
                text.append(attr);
                text.append(" is unsupported");
                text
            },
            ErrorKind::UnsupportedAttributePair(attr, value) => {
                let mut text = String::from_str("Unsupported attribute value '");
                text.append(value);
                text.append("' for attribute '");
                text.append(attr);
                text.append("'");
                text
            },
            ErrorKind::ObjectArgumentWithDefaultValue => String::from_str(
                "Default arguments where the type is an object is currently not supported",
            ),
            ErrorKind::NullDefaultValue => String::from_str(
                "Having a default argument value of `null` is not supported. Use a nullable type instead",
            ),
            ErrorKind::VariableDefaultValue => String::from_str(
                "Default arguments cannot refer to variables",
            ),
            ErrorKind::TypeExtensionNotSupported => String::from_str(
                "Type extentions are not supported",
            ),
            ErrorKind::UnionFieldTypeMismatch { union_name, .. } => {
                let mut text = String::from_str(
                    "Error while generating `QueryTrail` for union `",
                );
                text.append(union_name);
                text.append("`");
                text
            },
        }
    }

    /// What more there is to say about the error, if anything: one or more
    /// lines that explain the problem or propose a remedy.
    pub fn notes(&self) -> (text: Option<String>)
        ensures
            match text {
                Some(notes) => self@.notes() == Some(notes@),
                None => self@.notes() is None,
            },
    {
        match self {
            ErrorKind::SubscriptionsNotSupported => Some(
                String::from_str(
                    "Subscriptions are currently not supported by Juniper so we're unsure when\nor if we'll support them",
                ),
            ),
            ErrorKind::UnionFieldTypeMismatch {
                union_name,
                field_name,
                type_a,
                field_type_a,
                type_b,
                field_type_b,
            } => {
                let mut f = String::new();
                push_mismatch_summary(&mut f, field_name, type_a, type_b);
                push_mismatch_detail(&mut f, field_name, type_a, field_type_a);
                push_mismatch_detail(&mut f, field_name, type_b, field_type_b);
                push_mismatch_consequence(&mut f, union_name, field_name);
                push_mismatch_dilemma(
                    &mut f,
                    union_name,
                    type_a,
                    field_type_a,
                    type_b,
                    field_type_b,
                );
                assert(Some(f@) =~= self@.notes());
                Some(f)
            },
            ErrorKind::DateTimeScalarNotDefined => Some(
                String::from_str("Insert `scalar DateTime` into your schema"),
            ),
            ErrorKind::DateScalarNotDefined => Some(
                String::from_str("Insert `scalar Date` into your schema"),
            ),
            _ => None,
        }
    }
}

/// Appends the first line of the notes on a mismatch.
fn push_mismatch_summary(out: &mut String, field_name: &str, type_a: &str, type_b: &str)
    ensures
        final(out)@ == old(out)@ + mismatch_summary(field_name@, type_a@, type_b@),
{
    out.append("`");
    out.append(type_a);
    out.append(".");
    out.append(field_name);
    out.append("` and `");
    out.append(type_b);
    out.append(".");
    out.append(field_name);
    out.append("` are not the same type\n");
    assert(out@ =~= old(out)@ + mismatch_summary(field_name@, type_a@, type_b@));
}

/// Appends the line of the notes on a mismatch that gives the type of one
/// field.
fn push_mismatch_detail(out: &mut String, field_name: &str, owner: &str, field_type: &str)
    ensures
        final(out)@ == old(out)@ + mismatch_detail(field_name@, owner@, field_type@),
{
    out.append("    `");
    out.append(owner);
    out.append(".");
    out.append(field_name);
    out.append("` is of type `");
    out.append(field_type);
    out.append("`\n");
    assert(out@ =~= old(out)@ + mismatch_detail(field_name@, owner@, field_type@));
}

/// Appends the fourth line of the notes on a mismatch.
fn push_mismatch_consequence(out: &mut String, union_name: &str, field_name: &str)
    ensures
        final(out)@ == old(out)@ + mismatch_consequence(union_name@, field_name@),
{
    out.append("That makes it impossible to generate code for the method `QueryTrail<_, ");
    out.append(union_name);
    out.append(", _>::");
    out.append(field_name);
    out.append("()`\n");
    assert(out@ =~= old(out)@ + mismatch_consequence(union_name@, field_name@));
}

/// Appends the fifth line of the notes on a mismatch.
fn push_mismatch_dilemma(
    out: &mut String,
    union_name: &str,
    type_a: &str,
    field_type_a: &str,
    type_b: &str,
    field_type_b: &str,
)
    ensures
        final(out)@ == old(out)@ + mismatch_dilemma(
            union_name@,
            type_a@,
            field_type_a@,
            type_b@,
            field_type_b@,
        ),
{
    out.append("It would have to return `");
    out.append(field_type_a);
    out.append("` if `");
    out.append(union_name);
    out.append("` is `");
    out.append(type_a);
    out.append(",` but `");
    out.append(field_type_b);
    out.append("` if it is a `");
    out.append(type_b);
    out.append("`\n");
    assert(out@ =~= old(out)@ + mismatch_dilemma(
        union_name@,
        type_a@,
        field_type_a@,
        type_b@,
        field_type_b@,
    ));
}

/// Whether `needle` stands in `text` from the index `at` on.
pub open spec fn occurs_at(needle: Seq<char>, text: Seq<char>, at: int) -> bool {
    0 <= at && at + needle.len() <= text.len() && text.subrange(at, at + needle.len()) == needle
}

/// Whether `needle` stands somewhere in `text`, character after character.
pub open spec fn occurs_in(needle: Seq<char>, text: Seq<char>) -> bool {
    exists|at: int| occurs_at(needle, text, at)
}

/// What occurs in a text occurs in every text around it.
pub proof fn lemma_occurs_in_longer(
    needle: Seq<char>,
    before: Seq<char>,
    text: Seq<char>,
    after: Seq<char>,
)
    requires
        occurs_in(needle, text),
    ensures
        occurs_in(needle, before + text + after),
{
    let at = choose|at: int| occurs_at(needle, text, at);
    let longer = before + text + after;
    assert(longer.subrange(before.len() + at, before.len() + at + needle.len()) =~= text.subrange(
        at,
        at + needle.len(),
    ));
    assert(occurs_at(needle, longer, before.len() + at));
}

/// The first line of the notes names the field and both types.
proof fn lemma_summary_mentions(field_name: Seq<char>, type_a: Seq<char>, type_b: Seq<char>)
    ensures
        occurs_in(field_name, mismatch_summary(field_name, type_a, type_b)),
        occurs_in(type_a, mismatch_summary(field_name, type_a, type_b)),
        occurs_in(type_b, mismatch_summary(field_name, type_a, type_b)),
{
    let line = mismatch_summary(field_name, type_a, type_b);
    let at_a = "`"@.len() as int;
    let at_field = at_a + type_a.len() + "."@.len();
    let at_b = at_field + field_name.len() + "` and `"@.len();
    assert(line.subrange(at_a, at_a + type_a.len()) =~= type_a);
    assert(occurs_at(type_a, line, at_a));
    assert(line.subrange(at_field, at_field + field_name.len()) =~= field_name);
    assert(occurs_at(field_name, line, at_field));
    assert(line.subrange(at_b, at_b + type_b.len()) =~= type_b);
    assert(occurs_at(type_b, line, at_b));
}

/// The line on one field names the type of that field.
proof fn lemma_detail_mentions(field_name: Seq<char>, owner: Seq<char>, field_type: Seq<char>)
    ensures
        occurs_in(field_type, mismatch_detail(field_name, owner, field_type)),
{
    let line = mismatch_detail(field_name, owner, field_type);
    let at = ("    `"@.len() + owner.len() + "."@.len() + field_name.len()
        + "` is of type `"@.len()) as int;
    assert(line.subrange(at, at + field_type.len()) =~= field_type);
    assert(occurs_at(field_type, line, at));
}

/// The fourth line of the notes names the union.
proof fn lemma_consequence_mentions(union_name: Seq<char>, field_name: Seq<char>)
    ensures
        occurs_in(union_name, mismatch_consequence(union_name, field_name)),
{
    let line = mismatch_consequence(union_name, field_name);
    let at = "That makes it impossible to generate code for the method `QueryTrail<_, "@.len() as int;
    assert(line.subrange(at, at + union_name.len()) =~= union_name);
    assert(occurs_at(union_name, line, at));
}

/// Every name that a kind carries is put into its messages as it is: the
/// names of an unsupported attribute and of its value into the description,
/// the name of a mismatching union into the description, and all six names
/// of a mismatch into the notes.
pub proof fn lemma_names_are_mentioned(kind: KindView)
    ensures
        match kind {
            KindView::UnionFieldTypeMismatch { union_name, .. } => {
                &&& occurs_in(union_name, kind.description())
                &&& kind.notes() is Some
                &&& forall|i: int|
                    0 <= i < kind.names().len() ==> occurs_in(
                        #[trigger] kind.names()[i],
                        kind.notes()->0,
                    )
            },
            _ => forall|i: int|
                0 <= i < kind.names().len() ==> occurs_in(
                    #[trigger] kind.names()[i],
                    kind.description(),
                ),
        },
{
    match kind {
        KindView::UnionFieldTypeMismatch {
            union_name,
            field_name,
            type_a,
            field_type_a,
            type_b,
            field_type_b,
        } => {
            let description = kind.description();
            let at = "Error while generating `QueryTrail` for union `"@.len() as int;
            assert(description.subrange(at, at + union_name.len()) =~= union_name);
            assert(occurs_at(union_name, description, at));

            let notes = kind.notes()->0;
            let summary = mismatch_summary(field_name, type_a, type_b);
            let detail_a = mismatch_detail(field_name, type_a, field_type_a);
            let detail_b = mismatch_detail(field_name, type_b, field_type_b);
            let consequence = mismatch_consequence(union_name, field_name);
            let dilemma = mismatch_dilemma(union_name, type_a, field_type_a, type_b, field_type_b);
            let none = Seq::<char>::empty();

            lemma_summary_mentions(field_name, type_a, type_b);
            assert(notes =~= none + summary + (detail_a + detail_b + consequence + dilemma));
            lemma_occurs_in_longer(
                field_name,
                none,
                summary,
                detail_a + detail_b + consequence + dilemma,
            );
            lemma_occurs_in_longer(
                type_a,
                none,
                summary,
                detail_a + detail_b + consequence + dilemma,
            );
            lemma_occurs_in_longer(
                type_b,
                none,
                summary,
                detail_a + detail_b + consequence + dilemma,
            );

            lemma_detail_mentions(field_name, type_a, field_type_a);
            assert(notes =~= summary + detail_a + (detail_b + consequence + dilemma));
            lemma_occurs_in_longer(
                field_type_a,
                summary,
                detail_a,
                detail_b + consequence + dilemma,
            );

            lemma_detail_mentions(field_name, type_b, field_type_b);
            assert(notes =~= (summary + detail_a) + detail_b + (consequence + dilemma));
            lemma_occurs_in_longer(
                field_type_b,
                summary + detail_a,
                detail_b,
                consequence + dilemma,
            );

            lemma_consequence_mentions(union_name, field_name);
            assert(notes =~= (summary + detail_a + detail_b) + consequence + dilemma);
            lemma_occurs_in_longer(
                union_name,
                summary + detail_a + detail_b,
                consequence,
                dilemma,
            );
        },
        KindView::UnsupportedAttribute(attr) => {
            let description = kind.description();
            let at = "The attribute "@.len() as int;
            assert(description.subrange(at, at + attr.len()) =~= attr);
            assert(occurs_at(attr, description, at));
        },
        KindView::UnsupportedAttributePair(attr, value) => {
            let description = kind.description();
            let at_value = "Unsupported attribute value '"@.len() as int;
            let at_attr = at_value + value.len() + "' for attribute '"@.len();
            assert(description.subrange(at_value, at_value + value.len()) =~= value);
            assert(occurs_at(value, description, at_value));
            assert(description.subrange(at_attr, at_attr + attr.len()) =~= attr);
            assert(occurs_at(attr, description, at_attr));
        },
        _ => {},
    }
}

/// The description is one line: it is not empty, and it holds no line feed
/// unless a name that the kind carries holds one.
pub proof fn lemma_description_single_line(kind: KindView)
    requires
        kind.names_single_line(),
    ensures
        kind.description().len() > 0,
        single_line(kind.description()),
        lines(kind.description()) == seq![kind.description()],
{
    lemma_description_has_no_line_feed(kind);
    lemma_single_line(kind.description());
}

/// No fixed part of a description is empty or holds a line feed.
proof fn lemma_description_has_no_line_feed(kind: KindView)
    requires
        kind.names_single_line(),
    ensures
        kind.description().len() > 0,
        single_line(kind.description()),
{
    match kind {
        KindView::DateTimeScalarNotDefined => {
            reveal_strlit("You have to define a custom scalar called `DateTime` to use this type");
        },
        KindView::DateScalarNotDefined => {
            reveal_strlit("You have to define a custom scalar called `Date` to use this type");
        },
        KindView::DirectivesNotSupported => {
            reveal_strlit("Directives are currently not supported");
        },
        KindView::NoQueryType => {
            reveal_strlit("Schema doesn't have root a Query type");
        },
        KindView::NonnullableFieldWithDefaultValue => {
            reveal_strlit("Fields with default arguments values must be nullable");
        },
        KindView::NullDefaultValue => {
            reveal_strlit(
                "Having a default argument value of `null` is not supported. Use a nullable type instead",
            );
        },
        KindView::ObjectArgumentWithDefaultValue => {
            reveal_strlit(
                "Default arguments where the type is an object is currently not supported",
            );
        },
        KindView::SubscriptionsNotSupported => {
            reveal_strlit("Subscriptions are currently not supported");
        },
        KindView::TypeExtensionNotSupported => {
            reveal_strlit("Type extentions are not supported");
        },
        KindView::UnionFieldTypeMismatch { union_name, .. } => {
            reveal_strlit("Error while generating `QueryTrail` for union `");
            reveal_strlit("`");
            assert(single_line(kind.names()[0]));
        },
        KindView::UnsupportedAttribute(attr) => {
            reveal_strlit("The attribute ");
            reveal_strlit(" is unsupported");
            assert(single_line(kind.names()[0]));
        },
        KindView::UnsupportedAttributePair(attr, value) => {
            reveal_strlit("Unsupported attribute value '");
            reveal_strlit("' for attribute '");
            reveal_strlit("'");
            assert(single_line(kind.names()[0]));
            assert(single_line(kind.names()[1]));
        },
        KindView::VariableDefaultValue => {
            reveal_strlit("Default arguments cannot refer to variables");
        },
    }
}

/// Whether `c` is one of the two characters that line endings are made of.
pub open spec fn is_line_break(c: char) -> bool {
    c == '\n' || c == '\r'
}

/// Notes neither begin nor end with an empty line: their first character is
/// no line break, and neither is their last one, a final line feed aside.
pub proof fn lemma_notes_shape(kind: KindView)
    requires
        kind.notes() is Some,
    ensures
        ({
            let notes = kind.notes()->0;
            let body = if notes.last() == '\n' {
                notes.drop_last()
            } else {
                notes
            };
            &&& notes.len() > 0
            &&& !is_line_break(notes[0])
            &&& body.len() > 0
            &&& !is_line_break(body.last())
        }),
{
    match kind {
        KindView::SubscriptionsNotSupported => {
            reveal_strlit(
                "Subscriptions are currently not supported by Juniper so we're unsure when\nor if we'll support them",
            );
        },
        KindView::DateTimeScalarNotDefined => {
            reveal_strlit("Insert `scalar DateTime` into your schema");
        },
        KindView::DateScalarNotDefined => {
            reveal_strlit("Insert `scalar Date` into your schema");
        },
        KindView::UnionFieldTypeMismatch { .. } => {
            reveal_strlit("`");
            reveal_strlit("`\n");
        },
        _ => {},
    }
}

} // verus!
