//! The coloured prompt: user, host and working directory between brackets.

use vstd::prelude::*;

verus! {

/// Whether `s` holds no escape character.
pub open spec fn escape_free(s: Seq<char>) -> bool {
    forall|i: int| 0 <= i < s.len() ==> #[trigger] s[i] != '\u{1b}'
}

/// `plain` between the terminal sequence that selects the colour `code` and
/// the one that resets it.
pub open spec fn styled(plain: Seq<char>, code: Seq<char>) -> Seq<char> {
    "\u{1b}["@ + code + "m"@ + plain + "\u{1b}[0m"@
}

/// Whether `out` shows `plain` in the colour `code`: as it is where colours
/// are switched off, else between the colour's sequences.
pub open spec fn shown_as(plain: Seq<char>, code: Seq<char>, out: Seq<char>) -> bool {
    out == plain || out == styled(plain, code)
}

/// The prompt made of the three pieces.
pub open spec fn prompt_text(user: Seq<char>, host: Seq<char>, dir: Seq<char>) -> Seq<char> {
    "["@ + user + "@"@ + host + " "@ + dir + "] "@
}

/// `colored::Colorize::green` on a string slice, written out as a string.
/// Whether colours are on depends on the environment and the terminal, so
/// the contract allows both: text without an escape character comes back
/// unchanged, or between the sequences for colour 32 and for reset.
#[verifier::external_body]
fn paint_green(s: &str) -> (out: String)
    ensures
        escape_free(s@) ==> shown_as(s@, "32"@, out@),
{
    colored::Colorize::green(s).to_string()
}

/// `colored::Colorize::blue` on a string slice, written out as a string:
/// as `paint_green`, with colour 34.
#[verifier::external_body]
fn paint_blue(s: &str) -> (out: String)
    ensures
        escape_free(s@) ==> shown_as(s@, "34"@, out@),
{
    colored::Colorize::blue(s).to_string()
}

/// `colored::Colorize::bright_blue` on a string slice, written out as a
/// string: as `paint_green`, with colour 94.
#[verifier::external_body]
fn paint_bright_blue(s: &str) -> (out: String)
    ensures
        escape_free(s@) ==> shown_as(s@, "94"@, out@),
{
    colored::Colorize::bright_blue(s).to_string()
}

/// Puts the pieces of a prompt, painted or not, between the brackets.
pub fn frame_prompt(user: &str, host: &str, dir: &str) -> (prompt: String)
    ensures
        prompt@ == prompt_text(user@, host@, dir@),
{
    let mut prompt = "[".to_owned();
    prompt.append(user);
    prompt.append("@");
    prompt.append(host);
    prompt.append(" ");
    prompt.append(dir);
    prompt.append("] ");
    prompt
}

/// The prompt for the user `user` on the host `host` in the directory `dir`:
/// the user in green, the host in blue, the directory in bright blue.
pub fn prompt_handler(user: &str, host: &str, dir: &str) -> (prompt: String)
    ensures
        exists|u: Seq<char>, h: Seq<char>, d: Seq<char>|
            {
                &&& prompt@ == #[trigger] prompt_text(u, h, d)
                &&& escape_free(user@) ==> shown_as(user@, "32"@, u)
                &&& escape_free(host@) ==> shown_as(host@, "34"@, h)
                &&& escape_free(dir@) ==> shown_as(dir@, "94"@, d)
            },
{
    let u = paint_green(user);
    let h = paint_blue(host);
    let d = paint_bright_blue(dir);
    let prompt = frame_prompt(u.as_str(), h.as_str(), d.as_str());
    assert(prompt@ == prompt_text(u@, h@, d@));
    prompt
}

} // verus!
