//! The console log lines: commands as they are used, errors, and notices,
//! painted bold in a colour by the `colored` crate.

use vstd::prelude::*;
use vstd::string::StringExecFns;
use colored::Colorize;
use crate::text::{occurs_at, owned};

verus! {

/// The colours the log paints with.
#[derive(Clone, Copy)]
pub enum LogColour {
    Green,
    Magenta,
    Cyan,
    Red,
}

/// The escape sequence that turns on bold text in a colour.
pub open spec fn bold_prefix(c: LogColour) -> Seq<char> {
    match c {
        LogColour::Green => "\u{1b}[1;32m"@,
        LogColour::Magenta => "\u{1b}[1;35m"@,
        LogColour::Cyan => "\u{1b}[1;36m"@,
        LogColour::Red => "\u{1b}[1;31m"@,
    }
}

/// The escape sequence that ends all styling.
pub open spec fn reset_sequence() -> Seq<char> {
    "\u{1b}[0m"@
}

/// The text with `style` put back after each reset sequence it holds
/// (occurrences taken leftmost first, from position `i` on), so that a reset
/// inside the text does not end the painting early.
pub open spec fn restyle_from(text: Seq<char>, style: Seq<char>, i: int) -> Seq<char>
    decreases text.len() - i,
{
    if reset_sequence().len() == 0 || i >= text.len() || i < 0 {
        Seq::empty()
    } else if occurs_at(text, reset_sequence(), i) {
        reset_sequence() + style + restyle_from(text, style, i + reset_sequence().len())
    } else {
        seq![text[i]] + restyle_from(text, style, i + 1)
    }
}

pub open spec fn restyle(text: Seq<char>, style: Seq<char>) -> Seq<char> {
    restyle_from(text, style, 0)
}

/// `r` is `text` painted bold in colour `c`: either the text as it is (when
/// the terminal is not to be coloured), or the colour's escape sequence, the
/// text with that sequence put back after each reset inside it, and a reset.
pub open spec fn painted(text: Seq<char>, c: LogColour, r: Seq<char>) -> bool {
    ||| r == text
    ||| r == bold_prefix(c) + restyle(text, bold_prefix(c)) + reset_sequence()
}

proof fn lemma_restyle_plain_from(text: Seq<char>, style: Seq<char>, i: int)
    requires
        0 <= i <= text.len(),
        forall|k: int| i <= k < text.len() ==> !occurs_at(text, reset_sequence(), k),
    ensures
        restyle_from(text, style, i) == text.subrange(i, text.len() as int),
    decreases text.len() - i,
{
    reveal_strlit("\u{1b}[0m");
    if i < text.len() {
        lemma_restyle_plain_from(text, style, i + 1);
        assert(seq![text[i]] + text.subrange(i + 1, text.len() as int) == text.subrange(i, text.len() as int));
    }
}

/// A text without reset sequences of its own is painted as the colour's
/// escape sequence, the text, and a reset.
pub proof fn lemma_restyle_plain(text: Seq<char>, style: Seq<char>)
    requires
        forall|k: int| 0 <= k < text.len() ==> !occurs_at(text, reset_sequence(), k),
    ensures
        restyle(text, style) == text,
{
    lemma_restyle_plain_from(text, style, 0);
    assert(text.subrange(0, text.len() as int) == text);
}

/// `text.color(c).bold().to_string()` with `colored`. Whether it colours at
/// all depends on the environment (`CLICOLOR`, `NO_COLOR`, `CLICOLOR_FORCE`,
/// whether standard output is a terminal, and any override set in the
/// process), so only what holds either way is stated. When it colours it
/// writes `ESC[1;<colour>m`, the text with `ESC[1;<colour>m` inserted after
/// each `ESC[0m` found in it (`escape_inner_reset_sequences`), and `ESC[0m`;
/// otherwise the text as it is.
#[verifier::external_body]
fn paint_bold(text: &str, c: LogColour) -> (r: String)
    ensures
        painted(text@, c, r@),
{
    let colour = match c {
        LogColour::Green => colored::Color::Green,
        LogColour::Magenta => colored::Color::Magenta,
        LogColour::Cyan => colored::Color::Cyan,
        LogColour::Red => colored::Color::Red,
    };
    text.color(colour).bold().to_string()
}

/// The layout of a command's log line: where, then who, then what.
pub open spec fn command_layout(place: Seq<char>, user: Seq<char>, msg: Seq<char>) -> Seq<char> {
    place + " >> "@ + user + " > "@ + msg
}

/// Lays out a command's log line from its three painted parts.
pub fn command_line(place: String, user: String, msg: String) -> (r: String)
    ensures
        r@ == command_layout(place@, user@, msg@),
{
    let mut r = place;
    r.append(" >> ");
    r.append(user.as_str());
    r.append(" > ");
    r.append(msg.as_str());
    r
}

/// The line logged for a command used in a guild: the guild's name in
/// green, the user's name in magenta and the message in cyan, all bold.
pub fn command(guild: &str, user: &str, msg: &str) -> (r: String)
    ensures
        exists|g: Seq<char>, u: Seq<char>, m: Seq<char>|
            painted(guild@, LogColour::Green, g) && painted(user@, LogColour::Magenta, u) && painted(
                msg@,
                LogColour::Cyan,
                m,
            ) && r@ == command_layout(g, u, m),
{
    let g = paint_bold(guild, LogColour::Green);
    let u = paint_bold(user, LogColour::Magenta);
    let m = paint_bold(msg, LogColour::Cyan);
    let ghost (gv, uv, mv) = (g@, u@, m@);
    let r = command_line(g, u, m);
    assert(painted(guild@, LogColour::Green, gv) && painted(user@, LogColour::Magenta, uv) && painted(
        msg@,
        LogColour::Cyan,
        mv,
    ) && r@ == command_layout(gv, uv, mv));
    r
}

/// The line logged for a command used in a direct message; laid out as
/// `command`, with `place` standing where the guild's name would.
pub fn command_dm(place: &str, user: &str, msg: &str) -> (r: String)
    ensures
        exists|g: Seq<char>, u: Seq<char>, m: Seq<char>|
            painted(place@, LogColour::Green, g) && painted(user@, LogColour::Magenta, u) && painted(
                msg@,
                LogColour::Cyan,
                m,
            ) && r@ == command_layout(g, u, m),
{
    command(place, user, msg)
}

/// An error line: the message in bold red.
pub fn error(msg: &str) -> (r: String)
    ensures
        painted(msg@, LogColour::Red, r@),
{
    paint_bold(msg, LogColour::Red)
}

/// A notice line: the message in bold green.
pub fn info(msg: &str) -> (r: String)
    ensures
        painted(msg@, LogColour::Green, r@),
{
    paint_bold(msg, LogColour::Green)
}

/// The place shown for a command used outside any guild.
pub fn direct_message_place() -> (r: String)
    ensures
        r@ == "DM"@,
{
    owned("DM")
}

} // verus!
