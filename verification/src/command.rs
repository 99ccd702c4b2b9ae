//! The tokenizer: one input line becomes a command name and its arguments.

use crate::text::{chars_of, is_blank, is_space_char, is_white_space, texts};
use vstd::prelude::*;

verus! {

/// A parsed input line: the program or built-in to run, and its arguments in
/// the order in which they were written. An empty `command` stands for a
/// blank line.
#[derive(Debug, PartialEq)]
pub struct Command {
    pub command: String,
    pub arguments: Vec<String>,
}

/// Why a line could not be tokenized.
#[derive(Debug, PartialEq, Eq, Clone, Copy)]
pub enum TokenizeError {
    /// The line ended inside an open quote.
    UnterminatedQuote,
}

impl TokenizeError {
    /// The complaint to show to the user.
    pub fn message(&self) -> (text: String)
        ensures
            text@ == "Unterminated quote."@,
    {
        "Unterminated quote.".to_owned()
    }
}

impl Command {
    /// The command name as text.
    pub open spec fn name(&self) -> Seq<char> {
        self.command@
    }

    /// The arguments as texts, in order.
    pub open spec fn args(&self) -> Seq<Seq<char>> {
        texts(self.arguments@)
    }
}

/// The tokenizer's state between two characters.
pub struct Scan {
    /// Whether the scan stands inside a quote.
    pub quoted: bool,
    /// The characters of the token that is being read.
    pub token: Seq<char>,
    /// The tokens that are complete, in order.
    pub done: Seq<Seq<char>>,
}

/// The state before the first character.
pub open spec fn scan_start() -> Scan {
    Scan { quoted: false, token: Seq::empty(), done: Seq::empty() }
}

/// One character: a space outside quotes ends the token, which is kept
/// unless it is blank; a quote toggles the quote state and is dropped; any
/// other character joins the token.
pub open spec fn scan_step(s: Scan, c: char) -> Scan {
    if c == ' ' && !s.quoted {
        if is_blank(s.token) {
            Scan { quoted: false, token: Seq::empty(), done: s.done }
        } else {
            Scan { quoted: false, token: Seq::empty(), done: s.done.push(s.token) }
        }
    } else if c == '"' {
        Scan { quoted: !s.quoted, token: s.token, done: s.done }
    } else {
        Scan { quoted: s.quoted, token: s.token.push(c), done: s.done }
    }
}

/// The state after the characters of `input`, read from state `s`.
pub open spec fn scan_from(s: Scan, input: Seq<char>) -> Scan
    decreases input.len(),
{
    if input.len() == 0 {
        s
    } else {
        scan_step(scan_from(s, input.drop_last()), input.last())
    }
}

/// The state at the end of `line`: the line is read from the start state,
/// and one space more, which ends a last token outside quotes.
pub open spec fn scan_line(line: Seq<char>) -> Scan {
    scan_from(scan_start(), line.push(' '))
}

/// The tokens of `line`, in order.
pub open spec fn tokens(line: Seq<char>) -> Seq<Seq<char>> {
    scan_line(line).done
}

/// Whether `line` ends inside an open quote with text pending.
pub open spec fn unterminated(line: Seq<char>) -> bool {
    scan_line(line).quoted && scan_line(line).token.len() > 0
}

/// The command name among `toks`: the first token, or the empty text.
pub open spec fn name_of(toks: Seq<Seq<char>>) -> Seq<char> {
    if toks.len() == 0 {
        Seq::empty()
    } else {
        toks[0]
    }
}

/// The arguments among `toks`: all tokens after the first.
pub open spec fn args_of(toks: Seq<Seq<char>>) -> Seq<Seq<char>> {
    if toks.len() == 0 {
        Seq::empty()
    } else {
        toks.skip(1)
    }
}

/// What the executable scanner holds stands for the state `s`.
spec fn stands_for(
    s: Scan,
    quoted: bool,
    token: Seq<char>,
    blank: bool,
    command: Seq<char>,
    args: Seq<Seq<char>>,
) -> bool {
    &&& s.quoted == quoted
    &&& s.token == token
    &&& blank == is_blank(token)
    &&& command == name_of(s.done)
    &&& args == args_of(s.done)
    &&& command.len() == 0 <==> s.done.len() == 0
}

/// Splits `input` into a command name and arguments.
///
/// Spaces outside quotes separate tokens, and blank tokens are dropped.
/// Double quotes are not part of a token; between them a space is an
/// ordinary character. The first token is the name, the others are the
/// arguments. A line that ends inside an open quote is refused.
pub fn parse_input(input: String) -> (r: Result<Command, TokenizeError>)
    ensures
        r is Err <==> unterminated(input@),
        r matches Ok(cmd) ==> cmd.name() == name_of(tokens(input@)) && cmd.args() == args_of(
            tokens(input@),
        ),
{
    let mut line = chars_of(input.as_str());
    line.push(' ');
    let mut quoted = false;
    let mut blank = true;
    let mut token = String::new();
    let mut command = String::new();
    let mut args: Vec<String> = Vec::new();
    let mut i: usize = 0;
    assert(texts(args@) =~= Seq::<Seq<char>>::empty());
    while i < line.len()
        invariant
            i <= line.len(),
            line@ == input@.push(' '),
            stands_for(
                scan_from(scan_start(), line@.take(i as int)),
                quoted,
                token@,
                blank,
                command@,
                texts(args@),
            ),
        decreases line.len() - i,
    {
        let c = line[i];
        let ghost before = scan_from(scan_start(), line@.take(i as int));
        proof {
            assert(line@.take(i + 1).drop_last() == line@.take(i as int));
            assert(line@.take(i + 1).last() == c);
        }
        if c == ' ' && !quoted {
            if !blank {
                proof {
                    assert(token@.len() > 0);
                }
                if command.as_str().is_empty() {
                    command = token;
                    proof {
                        assert(before.done.push(before.token).skip(1) =~= Seq::<
                            Seq<char>,
                        >::empty());
                    }
                } else {
                    proof {
                        assert(texts(args@.push(token)) =~= texts(args@).push(token@));
                        assert(before.done.push(before.token).skip(1) =~= before.done.skip(1).push(
                            before.token,
                        ));
                    }
                    args.push(token);
                }
            }
            token = String::new();
            blank = true;
        } else if c == '"' {
            quoted = !quoted;
        } else {
            let white = is_space_char(c);
            proof {
                let t = token@;
                let u = t.push(c);
                assert(forall|k: int| 0 <= k < t.len() ==> u[k] == t[k]);
                assert(u[t.len() as int] == c);
                assert(is_blank(u) == (is_blank(t) && is_white_space(c)));
            }
            token.push(c);
            blank = blank && white;
        }
        i += 1;
    }
    proof {
        assert(line@.take(line@.len() as int) == line@);
    }
    if quoted && !token.as_str().is_empty() {
        return Err(TokenizeError::UnterminatedQuote);
    }
    Ok(Command { command, arguments: args })
}

} // verus!
