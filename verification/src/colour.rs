//! Colouring of host names for display: zsh prompt escapes, or ANSI
//! escapes through the colorize crate.

use vstd::prelude::*;
use vstd::string::StringExecFns;
use colorize::AnsiColor;

verus! {

/// The three roles a piece of output can have.
#[derive(Clone, Copy, Debug, PartialEq, Eq, Structural)]
pub enum Colour {
    Bad,
    Good,
    Neutral,
}

/// Whether the text already begins with an ANSI escape; colorize
/// rewrites such text instead of wrapping it.
pub open spec fn starts_with_escape(s: Seq<char>) -> bool {
    s.len() >= 2 && s[0] == '\u{1b}' && s[1] == '['
}

/// The ANSI colour escape each role maps to: red, green or blue.
pub open spec fn ansi_prefix(c: Colour) -> Seq<char> {
    match c {
        Colour::Bad => "\u{1b}[31m"@,
        Colour::Good => "\u{1b}[32m"@,
        Colour::Neutral => "\u{1b}[34m"@,
    }
}

/// The zsh prompt form of each role: the %F colour opener, the text,
/// then %f.
pub open spec fn zsh_wrapped(c: Colour, s: Seq<char>) -> Seq<char> {
    match c {
        Colour::Bad => "%F{red}"@ + s + "%f"@,
        Colour::Good => "%F{green}"@ + s + "%f"@,
        Colour::Neutral => "%F{blue}"@ + s + "%f"@,
    }
}

/// The result opens with the given escape and carries the text right
/// after it; whatever follows the text is the wrapping's trailer.
pub open spec fn ansi_embeds(prefix: Seq<char>, s: Seq<char>, r: Seq<char>) -> bool {
    &&& r.len() >= prefix.len() + s.len()
    &&& r.subrange(0, prefix.len() as int) == prefix
    &&& r.subrange(prefix.len() as int, (prefix.len() + s.len()) as int) == s
}

/// Relies on colorize::AnsiColor::red for String: when the text does
/// not already begin with an ANSI escape, the result is the red
/// escape, then the text, then a reset drawn from colorize's
/// thread-local colour state.
#[verifier::external_body]
fn ansi_red(s: String) -> (r: String)
    ensures
        !starts_with_escape(s@) ==> ansi_embeds("\u{1b}[31m"@, s@, r@),
{
    s.red()
}

/// Relies on colorize::AnsiColor::green for String, as `ansi_red`
/// relies on its red counterpart.
#[verifier::external_body]
fn ansi_green(s: String) -> (r: String)
    ensures
        !starts_with_escape(s@) ==> ansi_embeds("\u{1b}[32m"@, s@, r@),
{
    s.green()
}

/// Relies on colorize::AnsiColor::blue for String, as `ansi_red`
/// relies on its red counterpart.
#[verifier::external_body]
fn ansi_blue(s: String) -> (r: String)
    ensures
        !starts_with_escape(s@) ==> ansi_embeds("\u{1b}[34m"@, s@, r@),
{
    s.blue()
}

impl Colour {
    /// Wraps the text for display: in zsh mode between the prompt
    /// colour escapes, otherwise between ANSI escapes through
    /// colorize.
    pub fn wrap(&self, s: String, mode: bool) -> (r: String)
        ensures
            mode ==> r@ == zsh_wrapped(*self, s@),
            (!mode && !starts_with_escape(s@)) ==> ansi_embeds(ansi_prefix(*self), s@, r@),
    {
        match mode {
            true => {
                let mut m = match self {
                    Colour::Bad => String::from_str("%F{red}"),
                    Colour::Good => String::from_str("%F{green}"),
                    Colour::Neutral => String::from_str("%F{blue}"),
                };
                m.append(s.as_str());
                m.append("%f");
                m
            },
            false => {
                match self {
                    Colour::Bad => ansi_red(s),
                    Colour::Good => ansi_green(s),
                    Colour::Neutral => ansi_blue(s),
                }
            },
        }
    }
}

} // verus!
