//! Terminal styling of text through `crossterm`.
use vstd::prelude::*;

verus! {

/// `t` shows the text `s` styled: `s` between a prefix and a suffix, or
/// nothing at all.
pub open spec fn styled(t: Seq<char>, s: Seq<char>) -> bool {
    t.len() == 0 || exists|pre: Seq<char>, post: Seq<char>| t == pre + s + post
}

/// `s` shown in cyan: crossterm's `Stylize::cyan` rendered with `to_string`.
/// Where ANSI output is available the text stands unchanged between the
/// escape sequences, which the `NO_COLOR` variable may leave out; where a
/// Windows console supports no ANSI sequences, crossterm styles through the
/// console itself and writes nothing into the string. The contract states
/// only that much.
#[verifier::external_body]
pub(crate) fn cyan(s: &str) -> (r: String)
    ensures
        styled(r@, s@),
{
    crossterm::style::Stylize::cyan(s).to_string()
}

/// `s` shown in bold cyan: crossterm's `Stylize::cyan` then `bold`, rendered
/// with `to_string`. As for `cyan`, only that the result is empty or holds
/// the text between a prefix and a suffix is stated.
#[verifier::external_body]
pub(crate) fn cyan_bold(s: &str) -> (r: String)
    ensures
        styled(r@, s@),
{
    crossterm::style::Stylize::bold(crossterm::style::Stylize::cyan(s)).to_string()
}

} // verus!
