//! The order in which errors are reported: by position, then by kind, then by
//! the text of the schema.
//!
//! Kinds are ordered as they are declared, and kinds that are the same by the
//! names they carry, one after the other. Texts are ordered as their UTF-8
//! encodings are, byte by byte, a text before every longer one that starts
//! with it.

use std::cmp::Ordering;
use vstd::prelude::*;
use vstd::string::StringSliceAdditionalSpecFns;
use vstd::utf8::encode_utf8;

use crate::bytes::{common_prefix_len, head, lemma_head_tail, tail};
use crate::error::{Error, ErrorView, Position};
use crate::kind::{ErrorKind, KindView};

verus! {

/// The order that `first` gives, and where it sees no difference the order
/// that `second` gives.
pub open spec fn refined_by(first: Ordering, second: Ordering) -> Ordering {
    if first == Ordering::Equal {
        second
    } else {
        first
    }
}

/// The order the other way round.
pub open spec fn opposite(order: Ordering) -> Ordering {
    match order {
        Ordering::Less => Ordering::Greater,
        Ordering::Equal => Ordering::Equal,
        Ordering::Greater => Ordering::Less,
    }
}

/// The order of two numbers.
pub open spec fn number_order(a: usize, b: usize) -> Ordering {
    if a < b {
        Ordering::Less
    } else if a > b {
        Ordering::Greater
    } else {
        Ordering::Equal
    }
}

/// The order of two runs of bytes: the first byte in which they differ
/// decides, and a run stands before every longer one that starts with it.
pub open spec fn bytes_order(a: Seq<u8>, b: Seq<u8>) -> Ordering
    decreases a.len(),
{
    if a.len() == 0 && b.len() == 0 {
        Ordering::Equal
    } else if a.len() == 0 {
        Ordering::Less
    } else if b.len() == 0 {
        Ordering::Greater
    } else if a[0] < b[0] {
        Ordering::Less
    } else if a[0] > b[0] {
        Ordering::Greater
    } else {
        bytes_order(a.drop_first(), b.drop_first())
    }
}

/// The order of two texts: that of their UTF-8 encodings.
pub open spec fn text_order(a: Seq<char>, b: Seq<char>) -> Ordering {
    bytes_order(encode_utf8(a), encode_utf8(b))
}

/// What two runs of bytes share at their start has no say in their order.
pub proof fn lemma_bytes_order_behind_prefix(prefix: Seq<u8>, a: Seq<u8>, b: Seq<u8>)
    ensures
        bytes_order(prefix + a, prefix + b) == bytes_order(a, b),
    decreases prefix.len(),
{
    if prefix.len() == 0 {
        assert(prefix + a =~= a);
        assert(prefix + b =~= b);
    } else {
        assert((prefix + a).drop_first() =~= prefix.drop_first() + a);
        assert((prefix + b).drop_first() =~= prefix.drop_first() + b);
        lemma_bytes_order_behind_prefix(prefix.drop_first(), a, b);
    }
}

/// Compares two texts.
pub fn compare_text(a: &str, b: &str) -> (order: Ordering)
    ensures
        order == text_order(a@, b@),
{
    let x = a.as_bytes();
    let y = b.as_bytes();
    let n = common_prefix_len(x, y);
    proof {
        lemma_head_tail(x@, n);
        lemma_head_tail(y@, n);
        lemma_bytes_order_behind_prefix(head(x@, n), tail(x@, n), tail(y@, n));
    }
    if n < x.len() && n < y.len() {
        if x[n] < y[n] {
            Ordering::Less
        } else {
            Ordering::Greater
        }
    } else if n < y.len() {
        Ordering::Less
    } else if n < x.len() {
        Ordering::Greater
    } else {
        Ordering::Equal
    }
}

/// The order of two lists of names: the first pair of names that differ
/// decides, and a list stands before every longer one that starts with it.
pub open spec fn names_order(a: Seq<Seq<char>>, b: Seq<Seq<char>>) -> Ordering
    decreases a.len(),
{
    if a.len() == 0 && b.len() == 0 {
        Ordering::Equal
    } else if a.len() == 0 {
        Ordering::Less
    } else if b.len() == 0 {
        Ordering::Greater
    } else {
        refined_by(text_order(a[0], b[0]), names_order(a.drop_first(), b.drop_first()))
    }
}

/// The order of two positions: by line, then by column.
pub open spec fn position_order(a: Position, b: Position) -> Ordering {
    refined_by(number_order(a.line, b.line), number_order(a.column, b.column))
}

/// The order of two kinds: by their rank, then by the names they carry.
pub open spec fn kind_order(a: KindView, b: KindView) -> Ordering {
    refined_by(number_order(a.rank(), b.rank()), names_order(a.names(), b.names()))
}

/// The order of two errors: by position, then by kind, then by the text of
/// the schema.
pub open spec fn error_order(a: ErrorView, b: ErrorView) -> Ordering {
    refined_by(
        position_order(a.pos, b.pos),
        refined_by(kind_order(a.kind, b.kind), text_order(a.source, b.source)),
    )
}

impl Position {
    /// Compares two positions: by line, then by column.
    pub fn compare(&self, other: &Position) -> (order: Ordering)
        ensures
            order == position_order(*self, *other),
    {
        if self.line < other.line {
            Ordering::Less
        } else if self.line > other.line {
            Ordering::Greater
        } else if self.column < other.column {
            Ordering::Less
        } else if self.column > other.column {
            Ordering::Greater
        } else {
            Ordering::Equal
        }
    }
}

/// The order of two lists that start with a name each: the two names
/// decide, and where they are the same the rest does.
pub proof fn lemma_names_order_step(
    x: Seq<char>,
    rest_a: Seq<Seq<char>>,
    y: Seq<char>,
    rest_b: Seq<Seq<char>>,
)
    ensures
        names_order(seq![x] + rest_a, seq![y] + rest_b) == refined_by(
            text_order(x, y),
            names_order(rest_a, rest_b),
        ),
{
    assert((seq![x] + rest_a).drop_first() =~= rest_a);
    assert((seq![y] + rest_b).drop_first() =~= rest_b);
}

/// `decided`, and where it sees no difference the order of `a` and `b`.
fn compare_next(decided: Ordering, a: &str, b: &str) -> (order: Ordering)
    ensures
        order == refined_by(decided, text_order(a@, b@)),
{
    match decided {
        Ordering::Equal => compare_text(a, b),
        Ordering::Less => Ordering::Less,
        Ordering::Greater => Ordering::Greater,
    }
}

impl<'doc> ErrorKind<'doc> {
    /// Compares two kinds: by their rank, then by the names they carry.
    pub fn compare(&self, other: &ErrorKind<'_>) -> (order: Ordering)
        ensures
            order == kind_order(self@, other@),
    {
        let place = self.rank();
        let other_place = other.rank();
        if place < other_place {
            return Ordering::Less;
        }
        if place > other_place {
            return Ordering::Greater;
        }
        let ghost none = Seq::<Seq<char>>::empty();
        match (self, other) {
            (ErrorKind::UnsupportedAttribute(attr), ErrorKind::UnsupportedAttribute(other_attr)) => {
                proof {
                    lemma_names_order_step(attr@, none, other_attr@, none);
                    assert(self@.names() =~= seq![attr@] + none);
                    assert(other@.names() =~= seq![other_attr@] + none);
                }
                compare_text(attr, other_attr)
            },
            (
                ErrorKind::UnsupportedAttributePair(attr, value),
                ErrorKind::UnsupportedAttributePair(other_attr, other_value),
            ) => {
                proof {
                    lemma_names_order_step(value@, none, other_value@, none);
                    lemma_names_order_step(
                        attr@,
                        seq![value@] + none,
                        other_attr@,
                        seq![other_value@] + none,
                    );
                    assert(self@.names() =~= seq![attr@] + (seq![value@] + none));
                    assert(other@.names() =~= seq![other_attr@] + (seq![other_value@] + none));
                }
                let order = compare_text(attr, other_attr);
                compare_next(order, value, other_value)
            },
            (
                ErrorKind::UnionFieldTypeMismatch {
                    union_name,
                    field_name,
                    type_a,
                    field_type_a,
                    type_b,
                    field_type_b,
                },
                ErrorKind::UnionFieldTypeMismatch {
                    union_name: other_union_name,
                    field_name: other_field_name,
                    type_a: other_type_a,
                    field_type_a: other_field_type_a,
                    type_b: other_type_b,
                    field_type_b: other_field_type_b,
                },
            ) => {
                proof {
                    let a5 = seq![field_type_b@] + none;
                    let b5 = seq![other_field_type_b@] + none;
                    let a4 = seq![type_b@] + a5;
                    let b4 = seq![other_type_b@] + b5;
                    let a3 = seq![field_type_a@] + a4;
                    let b3 = seq![other_field_type_a@] + b4;
                    let a2 = seq![type_a@] + a3;
                    let b2 = seq![other_type_a@] + b3;
                    let a1 = seq![field_name@] + a2;
                    let b1 = seq![other_field_name@] + b2;
                    lemma_names_order_step(field_type_b@, none, other_field_type_b@, none);
                    lemma_names_order_step(type_b@, a5, other_type_b@, b5);
                    lemma_names_order_step(field_type_a@, a4, other_field_type_a@, b4);
                    lemma_names_order_step(type_a@, a3, other_type_a@, b3);
                    lemma_names_order_step(field_name@, a2, other_field_name@, b2);
                    lemma_names_order_step(union_name@, a1, other_union_name@, b1);
                    assert(self@.names() =~= seq![union_name@] + a1);
                    assert(other@.names() =~= seq![other_union_name@] + b1);
                }
                let order = compare_text(union_name, other_union_name);
                let order = compare_next(order, field_name, other_field_name);
                let order = compare_next(order, type_a, other_type_a);
                let order = compare_next(order, field_type_a, other_field_type_a);
                let order = compare_next(order, type_b, other_type_b);
                compare_next(order, field_type_b, other_field_type_b)
            },
            _ => {
                assert(self@.names() =~= none);
                assert(other@.names() =~= none);
                Ordering::Equal
            },
        }
    }
}

impl<'doc> Error<'doc> {
    /// Compares two errors: by position, then by kind, then by the text of
    /// the schema.
    pub fn compare(&self, other: &Error<'_>) -> (order: Ordering)
        ensures
            order == error_order(self@, other@),
    {
        match self.pos.compare(&other.pos) {
            Ordering::Equal => match self.kind.compare(&other.kind) {
                Ordering::Equal => compare_text(self.raw_schema, other.raw_schema),
                Ordering::Less => Ordering::Less,
                Ordering::Greater => Ordering::Greater,
            },
            Ordering::Less => Ordering::Less,
            Ordering::Greater => Ordering::Greater,
        }
    }
}

/// Whether `order` relates `a`, `b` and `c` as a total order does: it sees
/// no difference between `a` and `b` only if they are the same, it turns
/// round when `a` and `b` change places, and it carries over from `a` before
/// `b` and `b` before `c` to `a` before `c`.
pub open spec fn orders_totally<T>(order: spec_fn(T, T) -> Ordering, a: T, b: T, c: T) -> bool {
    &&& order(a, b) == Ordering::Equal <==> a == b
    &&& order(b, a) == opposite(order(a, b))
    &&& order(a, b) == Ordering::Less && order(b, c) == Ordering::Less ==> order(a, c)
        == Ordering::Less
}

/// Two lists with the same first item and the same rest are the same.
proof fn lemma_same_by_parts<T>(a: Seq<T>, b: Seq<T>)
    requires
        a.len() > 0,
        b.len() > 0,
        a[0] == b[0],
        a.drop_first() == b.drop_first(),
    ensures
        a == b,
{
    assert(a =~= seq![a[0]] + a.drop_first());
    assert(b =~= seq![b[0]] + b.drop_first());
}

/// Runs of bytes are totally ordered.
pub proof fn lemma_bytes_order_is_total(a: Seq<u8>, b: Seq<u8>, c: Seq<u8>)
    ensures
        orders_totally(|x: Seq<u8>, y: Seq<u8>| bytes_order(x, y), a, b, c),
    decreases a.len(),
{
    if a.len() > 0 && b.len() > 0 && a[0] == b[0] {
        let rest = if c.len() > 0 {
            c.drop_first()
        } else {
            c
        };
        lemma_bytes_order_is_total(a.drop_first(), b.drop_first(), rest);
        if a.drop_first() == b.drop_first() {
            lemma_same_by_parts(a, b);
        }
    } else if a.len() == 0 && b.len() == 0 {
        assert(a =~= b);
    }
}

/// Texts are totally ordered.
pub proof fn lemma_text_order_is_total(a: Seq<char>, b: Seq<char>, c: Seq<char>)
    ensures
        orders_totally(|x: Seq<char>, y: Seq<char>| text_order(x, y), a, b, c),
{
    lemma_bytes_order_is_total(encode_utf8(a), encode_utf8(b), encode_utf8(c));
    vstd::utf8::encode_utf8_decode_utf8(a);
    vstd::utf8::encode_utf8_decode_utf8(b);
}

/// Lists of names are totally ordered.
pub proof fn lemma_names_order_is_total(
    a: Seq<Seq<char>>,
    b: Seq<Seq<char>>,
    c: Seq<Seq<char>>,
)
    ensures
        orders_totally(|x: Seq<Seq<char>>, y: Seq<Seq<char>>| names_order(x, y), a, b, c),
    decreases a.len(),
{
    if a.len() > 0 && b.len() > 0 {
        if c.len() > 0 {
            lemma_text_order_is_total(a[0], b[0], c[0]);
            lemma_text_order_is_total(b[0], c[0], a[0]);
            lemma_text_order_is_total(a[0], c[0], b[0]);
            lemma_names_order_is_total(a.drop_first(), b.drop_first(), c.drop_first());
        } else {
            lemma_text_order_is_total(a[0], b[0], a[0]);
            lemma_names_order_is_total(a.drop_first(), b.drop_first(), c);
        }
        if a[0] == b[0] && a.drop_first() == b.drop_first() {
            lemma_same_by_parts(a, b);
        }
    } else if a.len() == 0 && b.len() == 0 {
        assert(a =~= b);
    }
}

/// Positions are totally ordered.
pub proof fn lemma_position_order_is_total(a: Position, b: Position, c: Position)
    ensures
        orders_totally(|x: Position, y: Position| position_order(x, y), a, b, c),
{
}

/// Two kinds of the same rank that carry the same names are the same kind.
pub proof fn lemma_kind_by_rank_and_names(a: KindView, b: KindView)
    requires
        a.rank() == b.rank(),
        a.names() == b.names(),
    ensures
        a == b,
{
    let names = a.names();
    let other = b.names();
    match a {
        KindView::UnionFieldTypeMismatch { .. } => {
            assert(names[0] == other[0]);
            assert(names[1] == other[1]);
            assert(names[2] == other[2]);
            assert(names[3] == other[3]);
            assert(names[4] == other[4]);
            assert(names[5] == other[5]);
        },
        KindView::UnsupportedAttribute(_) => {
            assert(names[0] == other[0]);
        },
        KindView::UnsupportedAttributePair(_, _) => {
            assert(names[0] == other[0]);
            assert(names[1] == other[1]);
        },
        _ => {},
    }
}

/// Kinds are totally ordered.
pub proof fn lemma_kind_order_is_total(a: KindView, b: KindView, c: KindView)
    ensures
        orders_totally(|x: KindView, y: KindView| kind_order(x, y), a, b, c),
{
    lemma_names_order_is_total(a.names(), b.names(), c.names());
    lemma_names_order_is_total(b.names(), c.names(), a.names());
    lemma_names_order_is_total(a.names(), c.names(), b.names());
    if a.rank() == b.rank() && a.names() == b.names() {
        lemma_kind_by_rank_and_names(a, b);
    }
}

/// Errors are totally ordered: two errors compare as equal only if they have
/// the same position, kind, names and schema; comparing them the other way
/// round gives the opposite; and an error that comes before a second one
/// comes before all that the second one comes before.
pub proof fn lemma_error_order_is_total(a: ErrorView, b: ErrorView, c: ErrorView)
    ensures
        orders_totally(|x: ErrorView, y: ErrorView| error_order(x, y), a, b, c),
{
    lemma_position_order_is_total(a.pos, b.pos, c.pos);
    lemma_kind_order_is_total(a.kind, b.kind, c.kind);
    lemma_kind_order_is_total(b.kind, c.kind, a.kind);
    lemma_kind_order_is_total(a.kind, c.kind, b.kind);
    lemma_text_order_is_total(a.source, b.source, c.source);
}

} // verus!
