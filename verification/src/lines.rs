//! Splitting text into lines.
//!
//! A line ends at a line feed, or at a carriage return that is directly
//! followed by a line feed; the line ending is not part of the line. The last
//! line need not be ended: what follows the last line feed is a line of its
//! own unless it is empty, and a carriage return at its very end stays.

use vstd::prelude::*;
use vstd::std_specs::iter::IteratorSpec;
use vstd::string::StrSliceExecFns;

verus! {

broadcast use vstd::string::group_string_axioms;

/// The index of the first line feed in `text`, or the length of `text` if it
/// holds none.
pub open spec fn first_line_feed(text: Seq<char>) -> nat
    decreases text.len(),
{
    if text.len() == 0 || text[0] == '\n' {
        0
    } else {
        1 + first_line_feed(text.drop_first())
    }
}

/// `line` without the carriage return at its end, if it has one.
pub open spec fn without_carriage_return(line: Seq<char>) -> Seq<char> {
    if line.len() > 0 && line.last() == '\r' {
        line.drop_last()
    } else {
        line
    }
}

/// The lines of `text`, in order.
pub open spec fn lines(text: Seq<char>) -> Seq<Seq<char>>
    decreases text.len(),
{
    if text.len() == 0 {
        Seq::empty()
    } else {
        let end = first_line_feed(text) as int;
        if end >= text.len() {
            seq![text]
        } else {
            seq![without_carriage_return(text.take(end))] + lines(text.skip(end + 1))
        }
    }
}

/// The text that writes each of `lines` followed by a line feed.
pub open spec fn terminated(lines: Seq<Seq<char>>) -> Seq<char>
    decreases lines.len(),
{
    if lines.len() == 0 {
        Seq::empty()
    } else {
        terminated(lines.drop_last()) + lines.last() + seq!['\n']
    }
}

/// Whether `text` holds no line feed.
pub open spec fn single_line(text: Seq<char>) -> bool {
    forall|i: int| 0 <= i < text.len() ==> text[i] != '\n'
}

/// A text without a line feed is its own single line, unless it is empty.
pub proof fn lemma_single_line(text: Seq<char>)
    requires
        single_line(text),
    ensures
        lines(text) == if text.len() == 0 {
            Seq::<Seq<char>>::empty()
        } else {
            seq![text]
        },
{
    lemma_first_line_feed(text, text.len() as int);
}

/// `first_line_feed` is the one index before which no line feed stands and at
/// which one does, unless it is the end of the text.
pub proof fn lemma_first_line_feed(text: Seq<char>, end: int)
    requires
        0 <= end <= text.len(),
        forall|j: int| 0 <= j < end ==> text[j] != '\n',
        end == text.len() || text[end] == '\n',
    ensures
        first_line_feed(text) == end,
    decreases text.len(),
{
    if text.len() == 0 || text[0] == '\n' {
    } else {
        lemma_first_line_feed(text.drop_first(), end - 1);
    }
}

/// A text has at most as many lines as characters.
pub proof fn lemma_lines_len(text: Seq<char>)
    ensures
        lines(text).len() <= text.len(),
    decreases text.len(),
{
    if text.len() > 0 {
        let end = first_line_feed(text) as int;
        lemma_first_line_feed_range(text);
        if end < text.len() {
            lemma_lines_len(text.skip(end + 1));
        }
    }
}

/// `first_line_feed` lies within the text, and no line feed stands before it.
pub proof fn lemma_first_line_feed_range(text: Seq<char>)
    ensures
        first_line_feed(text) <= text.len(),
        forall|j: int| 0 <= j < first_line_feed(text) ==> text[j] != '\n',
        first_line_feed(text) < text.len() ==> text[first_line_feed(text) as int] == '\n',
    decreases text.len(),
{
    if text.len() == 0 || text[0] == '\n' {
    } else {
        let rest = text.drop_first();
        lemma_first_line_feed_range(rest);
        assert forall|j: int| 0 <= j < first_line_feed(text) implies text[j] != '\n' by {
            if j > 0 {
                assert(rest[j - 1] == text[j]);
            }
        }
    }
}

/// The line of `text` with the zero-based number `index`, if `text` has that
/// many lines.
pub fn nth_line<'a>(text: &'a str, index: usize) -> (found: Option<&'a str>)
    ensures
        match found {
            Some(line) => index < lines(text@).len() && line@ == lines(text@)[index as int],
            None => index >= lines(text@).len(),
        },
{
    let total = text.unicode_len();
    let mut chars = text.chars();
    let mut pos: usize = 0;
    let mut start: usize = 0;
    let mut line_no: usize = 0;
    let mut after_cr = false;
    assert(text@.skip(0) =~= text@);
    loop
        invariant
            total == text@.len(),
            start <= pos <= total,
            chars.remaining() == text@.skip(pos as int),
            chars.obeys_prophetic_iter_laws(),
            line_no <= index,
            line_no <= lines(text@).len(),
            lines(text@).skip(line_no as int) == lines(text@.skip(start as int)),
            forall|j: int| start <= j < pos ==> text@[j] != '\n',
            after_cr <==> (start < pos && text@[pos - 1] == '\r'),
        decreases total - pos,
    {
        let ghost current = text@.skip(start as int);
        match chars.next() {
            None => {
                // The text ends here. What has been read since `start` holds
                // no line feed, so it is the last line, unless it is empty.
                proof {
                    assert forall|j: int| 0 <= j < current.len() implies current[j] != '\n' by {
                        assert(current[j] == text@[start + j]);
                    }
                    lemma_first_line_feed(current, current.len() as int);
                    let from_here = lines(text@).skip(line_no as int);
                    if start < total {
                        assert(from_here =~= seq![current]);
                        assert(from_here[0] == current);
                    } else {
                        assert(from_here.len() == 0);
                    }
                }
                if start < total && line_no == index {
                    return Some(text.substring_char(start, total));
                } else {
                    return None;
                }
            },
            Some(c) => {
                if c == '\n' {
                    // The first line feed since `start`: the current line
                    // ends here, and the lines after it are those of the
                    // text behind this line feed.
                    proof {
                        lemma_first_line_feed(current, pos - start);
                        assert(current.skip(pos - start + 1) =~= text@.skip(pos + 1));
                        let from_here = lines(text@).skip(line_no as int);
                        assert(from_here[0] == without_carriage_return(current.take(pos - start)));
                        assert(from_here.skip(1) =~= lines(text@.skip(pos + 1)));
                    }
                    if line_no == index {
                        let end = if after_cr {
                            pos - 1
                        } else {
                            pos
                        };
                        let line = text.substring_char(start, end);
                        return Some(line);
                    }
                    line_no = line_no + 1;
                    start = pos + 1;
                    after_cr = false;
                } else {
                    after_cr = c == '\r';
                }
                pos = pos + 1;
            },
        }
    }
}

/// Appends each line of `text` to `out`, every one followed by a line feed.
pub fn push_lines(out: &mut String, text: &str)
    ensures
        final(out)@ == old(out)@ + terminated(lines(text@)),
{
    proof {
        reveal_strlit("\n");
        lemma_lines_len(text@);
    }
    let total = text.unicode_len();
    let mut index: usize = 0;
    loop
        invariant
            "\n"@ == seq!['\n'],
            index <= lines(text@).len() <= total,
            out@ == old(out)@ + terminated(lines(text@).take(index as int)),
        decreases lines(text@).len() - index,
    {
        match nth_line(text, index) {
            None => {
                assert(lines(text@).take(index as int) =~= lines(text@));
                return ;
            },
            Some(line) => {
                out.append(line);
                out.append("\n");
                proof {
                    let longer = lines(text@).take(index + 1);
                    assert(longer.drop_last() =~= lines(text@).take(index as int));
                }
                index = index + 1;
            },
        }
    }
}

} // verus!
