//! Terminal colour for the parts of a diagnostic that are highlighted.

use vstd::prelude::*;

verus! {

/// The escape character, with which every terminal control sequence starts.
pub open spec fn escape() -> char {
    '\u{1b}'
}

/// The control sequence that switches the foreground to bright red.
pub open spec fn bright_red_on() -> Seq<char> {
    seq![escape(), '[', '9', '1', 'm']
}

/// The control sequence that switches colour and style off again.
pub open spec fn style_off() -> Seq<char> {
    seq![escape(), '[', '0', 'm']
}

/// Whether `shown` is a way to show `text` in bright red: `text` between
/// the two control sequences, or `text` as it is where colour is switched
/// off. The setting is read once before anything is written and again for
/// the opening sequence, so a change in between can leave `text` with the
/// closing sequence alone.
pub open spec fn shows_bright_red(text: Seq<char>, shown: Seq<char>) -> bool {
    ||| shown == text
    ||| shown == bright_red_on() + text + style_off()
    ||| shown == text + style_off()
}

/// `text` as the `colored` crate displays it in bright red: the result of
/// `colored::Colorize::bright_red` on `text`, formatted through its
/// `Display`.
///
/// The contract is taken on trust from the source of `colored`. It claims
/// that the display is `text` itself while colouring is switched off (by the
/// environment, because the output is no terminal, or by an override), and
/// otherwise `text` behind the sequence `ESC [ 9 1 m` and before the sequence
/// `ESC [ 0 m`. Which of these comes out is not said: it depends on the
/// process and its environment. Inside `text` the crate repeats its style
/// after every `ESC [ 0 m`, so texts that hold an escape character are left
/// out.
#[verifier::external_body]
pub(crate) fn bright_red(text: &str) -> (shown: String)
    requires
        !text@.contains(escape()),
    ensures
        shows_bright_red(text@, shown@),
{
    colored::Colorize::bright_red(text).to_string()
}

} // verus!
