//! An error at a position in a schema, and the diagnostic it renders as.
//!
//! The diagnostic has five lines, and the notes of the kind after them:
//!
//! ```text
//! error: Schema doesn't have root a Query type
//!  --> schema:2:5
//!   |
//! 2 |    type Foo {
//!   |        ^
//! ```
//!
//! The margin on the left is as wide as the line number. The source line is
//! set four spaces off the bar, and the caret stands under the column.

use vstd::prelude::*;
use vstd::string::StringExecFns;

use crate::color::{bright_red, shows_bright_red};
use crate::digits::{decimal, digit_count, lemma_decimal_len, number_of_digits, push_decimal};
use crate::indent::{indent, indented, push_spaces, spaces};
use crate::kind::{ErrorKind, KindView};
use crate::lines::{lines, nth_line, push_lines, terminated};

verus! {

/// How far the source line is set off from the bar of the margin.
pub const SOURCE_INDENT: usize = 4;

/// A place in the schema. Lines and columns count from one.
#[derive(Debug, Clone, Copy, PartialEq, Eq, PartialOrd, Ord, Hash)]
pub struct Position {
    pub line: usize,
    pub column: usize,
}

impl Position {
    /// Whether line and column count from one, as they must.
    pub open spec fn counts_from_one(self) -> bool {
        self.line >= 1 && self.column >= 1
    }

    /// The position with the given line and column, if both count from one.
    pub fn new(line: usize, column: usize) -> (made: Option<Position>)
        ensures
            made is Some <==> line >= 1 && column >= 1,
            made matches Some(pos) ==> pos.line == line && pos.column == column
                && pos.counts_from_one(),
    {
        if line == 0 || column == 0 {
            None
        } else {
            Some(Position { line, column })
        }
    }
}

/// An error found in a schema: where it is, what it is, and the whole text of
/// the schema it was found in.
#[derive(Debug, Eq, PartialEq, Ord, PartialOrd)]
pub struct Error<'doc> {
    pub pos: Position,
    pub kind: ErrorKind<'doc>,
    pub raw_schema: &'doc str,
}

/// Why an error cannot be rendered.
#[derive(Debug, Clone, Copy, PartialEq, Eq)]
pub enum RenderError {
    /// The line or the column of the position is zero.
    PositionNotOneBased,
    /// The schema has fewer lines than the position says.
    LineOutOfRange,
}

/// An [`Error`] as plain data: its position, its kind and the characters of
/// the schema.
pub struct ErrorView {
    pub pos: Position,
    pub kind: KindView,
    pub source: Seq<char>,
}

impl<'doc> View for Error<'doc> {
    type V = ErrorView;

    open spec fn view(&self) -> ErrorView {
        ErrorView { pos: self.pos, kind: self.kind@, source: self.raw_schema@ }
    }
}

/// The first line: the label, then what went wrong.
pub open spec fn headline(label: Seq<char>, description: Seq<char>) -> Seq<char> {
    label + ": "@ + description + "\n"@
}

/// The second line: where the error is. Its padding is one less than the
/// width of the margin.
pub open spec fn location_line(pos: Position) -> Seq<char> {
    spaces((digit_count(pos.line as nat) - 1) as nat) + " --> schema:"@ + decimal(pos.line as nat)
        + ":"@ + decimal(pos.column as nat) + "\n"@
}

/// The third line: an empty margin and its bar.
pub open spec fn spacer_line(line: nat) -> Seq<char> {
    spaces(digit_count(line)) + " |\n"@
}

/// The fourth line: the line number, the bar, and the source line set off by
/// [`SOURCE_INDENT`].
pub open spec fn source_line(line: nat, text: Seq<char>) -> Seq<char> {
    decimal(line) + " |"@ + indented(text, SOURCE_INDENT as nat) + "\n"@
}

/// The fifth line: an empty margin, the bar, and the caret under the column.
pub open spec fn caret_line(pos: Position, caret: Seq<char>) -> Seq<char> {
    spaces(digit_count(pos.line as nat)) + " |"@ + spaces(
        (pos.column - 1 + SOURCE_INDENT) as nat,
    ) + caret + "\n"@
}

/// What follows the five lines: nothing, or an empty line and then the lines
/// of the notes.
pub open spec fn notes_block(notes: Option<Seq<char>>) -> Seq<char> {
    match notes {
        Some(text) => "\n"@ + terminated(lines(text)),
        None => Seq::empty(),
    }
}

impl ErrorView {
    /// Why the error cannot be rendered, if it cannot.
    pub open spec fn failure(self) -> Option<RenderError> {
        if !self.pos.counts_from_one() {
            Some(RenderError::PositionNotOneBased)
        } else if self.pos.line > lines(self.source).len() {
            Some(RenderError::LineOutOfRange)
        } else {
            None
        }
    }

    /// The line of the schema that the position points into.
    pub open spec fn offending_line(self) -> Seq<char>
        recommends
            self.failure() is None,
    {
        lines(self.source)[self.pos.line - 1]
    }

    /// The diagnostic, with `label` as the first word and `caret` as the
    /// marker under the column.
    pub open spec fn rendering(self, label: Seq<char>, caret: Seq<char>) -> Seq<char>
        recommends
            self.failure() is None,
    {
        headline(label, self.kind.description()) + location_line(self.pos) + spacer_line(
            self.pos.line as nat,
        ) + source_line(self.pos.line as nat, self.offending_line()) + caret_line(self.pos, caret)
            + notes_block(self.kind.notes())
    }
}

impl<'doc> Error<'doc> {
    /// Renders the diagnostic with the given label and caret. Fails if the
    /// position does not count from one or lies behind the last line of the
    /// schema.
    pub fn render_with(&self, label: &str, caret: &str) -> (res: Result<String, RenderError>)
        ensures
            res is Ok <==> self@.failure() is None,
            res matches Ok(text) ==> text@ == self@.rendering(label@, caret@),
            res matches Err(reason) ==> self@.failure() == Some(reason),
    {
        if self.pos.line == 0 || self.pos.column == 0 {
            return Err(RenderError::PositionNotOneBased);
        }
        let offending = match nth_line(self.raw_schema, self.pos.line - 1) {
            Some(line) => line,
            None => {
                return Err(RenderError::LineOutOfRange);
            },
        };
        let margin = number_of_digits(self.pos.line);
        let mut out = String::new();

        out.append(label);
        out.append(": ");
        out.append(self.kind.description().as_str());
        out.append("\n");
        assert(out@ =~= headline(label@, self@.kind.description()));
        let ghost first = out@;

        push_spaces(&mut out, margin - 1);
        out.append(" --> schema:");
        push_decimal(&mut out, self.pos.line);
        out.append(":");
        push_decimal(&mut out, self.pos.column);
        out.append("\n");
        assert(out@ =~= first + location_line(self.pos));
        let ghost second = out@;

        push_spaces(&mut out, margin);
        out.append(" |\n");
        assert(out@ =~= second + spacer_line(self.pos.line as nat));
        let ghost third = out@;

        push_decimal(&mut out, self.pos.line);
        out.append(" |");
        out.append(indent(offending, SOURCE_INDENT).as_str());
        out.append("\n");
        assert(out@ =~= third + source_line(self.pos.line as nat, self@.offending_line()));
        let ghost fourth = out@;

        push_spaces(&mut out, margin);
        out.append(" |");
        push_spaces(&mut out, self.pos.column - 1);
        push_spaces(&mut out, SOURCE_INDENT);
        out.append(caret);
        out.append("\n");
        proof {
            assert(spaces((self.pos.column - 1) as nat) + spaces(SOURCE_INDENT as nat) =~= spaces(
                (self.pos.column - 1 + SOURCE_INDENT) as nat,
            ));
            assert(out@ =~= fourth + caret_line(self.pos, caret@));
        }
        let ghost fifth = out@;

        match self.kind.notes() {
            Some(notes) => {
                out.append("\n");
                push_lines(&mut out, notes.as_str());
                assert(out@ =~= fifth + notes_block(self@.kind.notes()));
            },
            None => {
                assert(out@ =~= fifth + notes_block(self@.kind.notes()));
            },
        }
        Ok(out)
    }

    /// Renders the diagnostic without colour: the label is `error` and the
    /// caret is `^`.
    pub fn render_plain(&self) -> (res: Result<String, RenderError>)
        ensures
            res is Ok <==> self@.failure() is None,
            res matches Ok(text) ==> text@ == self@.rendering("error"@, "^"@),
            res matches Err(reason) ==> self@.failure() == Some(reason),
    {
        self.render_with("error", "^")
    }

    /// Renders the diagnostic for a terminal: the label `error` and the caret
    /// `^` are shown in bright red wherever colour is switched on.
    pub fn render(&self) -> (res: Result<String, RenderError>)
        ensures
            res is Ok <==> self@.failure() is None,
            res matches Ok(text) ==> exists|label: Seq<char>, caret: Seq<char>|
                shows_bright_red("error"@, label) && shows_bright_red("^"@, caret) && text@
                    == #[trigger] self@.rendering(label, caret),
            res matches Err(reason) ==> self@.failure() == Some(reason),
    {
        proof {
            reveal_strlit("error");
            reveal_strlit("^");
        }
        let label = bright_red("error");
        let caret = bright_red("^");
        self.render_with(label.as_str(), caret.as_str())
    }
}

/// Whether `res` is what rendering the error `e` with `label` and `caret`
/// comes to: the diagnostic, or the reason why there is none.
pub open spec fn is_outcome(
    res: Result<String, RenderError>,
    e: ErrorView,
    label: Seq<char>,
    caret: Seq<char>,
) -> bool {
    match res {
        Ok(text) => e.failure() is None && text@ == e.rendering(label, caret),
        Err(reason) => e.failure() == Some(reason),
    }
}

/// Rendering depends on nothing but the position, the kind with the names it
/// carries, and the text of the schema: two errors that agree in these render
/// alike. Both fail for the same reason, or both give the same diagnostic,
/// character for character and byte for byte.
pub proof fn lemma_rendering_is_deterministic(
    a: Error,
    b: Error,
    label: Seq<char>,
    caret: Seq<char>,
    first: Result<String, RenderError>,
    second: Result<String, RenderError>,
)
    requires
        a.pos == b.pos,
        a.kind@ == b.kind@,
        a.raw_schema@ == b.raw_schema@,
        is_outcome(first, a@, label, caret),
        is_outcome(second, b@, label, caret),
    ensures
        match first {
            Ok(text) => second is Ok && second->Ok_0@ == text@ && vstd::utf8::encode_utf8(
                second->Ok_0@,
            ) == vstd::utf8::encode_utf8(text@),
            Err(reason) => second == Err::<String, RenderError>(reason),
        },
{
    assert(a@ == b@);
}

/// The margin lines up, and the caret stands under the column.
///
/// In the source line and in the caret line the bar is the character behind
/// `digit_count(line) + 1` others, and what is shown starts one character
/// further on. From there the caret line has `column - 1 + SOURCE_INDENT`
/// spaces and then the caret; at the same offset the source line has the
/// character of that column, if the line is that long.
pub proof fn lemma_caret_under_column(pos: Position, text: Seq<char>, caret: Seq<char>)
    requires
        pos.column >= 1,
    ensures
        ({
            let shown_from = digit_count(pos.line as nat) + 2;
            let offset = pos.column - 1 + SOURCE_INDENT;
            let above = source_line(pos.line as nat, text);
            let below = caret_line(pos, caret);
            &&& above[shown_from - 1] == '|'
            &&& below[shown_from - 1] == '|'
            &&& below.len() == shown_from + offset + caret.len() + 1
            &&& forall|i: int| shown_from <= i < shown_from + offset ==> below[i] == ' '
            &&& below.subrange(shown_from + offset, shown_from + offset + caret.len()) == caret
            &&& pos.column <= text.len() ==> above[shown_from + offset] == text[pos.column - 1]
        }),
{
    reveal_strlit(" |");
    reveal_strlit("\n");
    lemma_decimal_len(pos.line as nat);
    let shown_from = digit_count(pos.line as nat) + 2;
    let offset = pos.column - 1 + SOURCE_INDENT;
    let below = caret_line(pos, caret);
    assert(below.subrange(shown_from + offset, shown_from + offset + caret.len()) =~= caret);
}

} // verus!
