//! What holds of the tokenizer's model for every input line.

use crate::command::{
    args_of, name_of, scan_from, scan_line, scan_start, scan_step, tokens, unterminated, Scan,
};
use crate::text::{is_blank, joined};
use vstd::prelude::*;

verus! {

/// Whether `s` holds no double quote.
pub open spec fn quote_free(s: Seq<char>) -> bool {
    forall|i: int| 0 <= i < s.len() ==> #[trigger] s[i] != '"'
}

/// Whether the number of double quotes in `s` is odd.
pub open spec fn odd_quotes(s: Seq<char>) -> bool
    decreases s.len(),
{
    if s.len() == 0 {
        false
    } else if s.last() == '"' {
        !odd_quotes(s.drop_last())
    } else {
        odd_quotes(s.drop_last())
    }
}

/// The pieces of `s` between its spaces, empty pieces included: what is left
/// of `s` when it is cut at every space.
pub open spec fn fragments(s: Seq<char>) -> Seq<Seq<char>>
    decreases s.len(),
{
    if s.len() == 0 {
        seq![Seq::empty()]
    } else {
        let f = fragments(s.drop_last());
        if s.last() == ' ' {
            f.push(Seq::empty())
        } else {
            f.drop_last().push(f.last().push(s.last()))
        }
    }
}

/// The fragments of `s` that are not blank.
pub open spec fn words(s: Seq<char>) -> Seq<Seq<char>> {
    fragments(s).filter(|f: Seq<char>| !is_blank(f))
}

/// Reading one more character is one more step.
pub proof fn lemma_scan_push(s: Scan, input: Seq<char>, c: char)
    ensures
        scan_from(s, input.push(c)) == scan_step(scan_from(s, input), c),
{
    assert(input.push(c).drop_last() == input);
}

/// Reading `a` and then `b` is reading `a + b`.
pub proof fn lemma_scan_concat(s: Scan, a: Seq<char>, b: Seq<char>)
    ensures
        scan_from(s, a + b) == scan_from(scan_from(s, a), b),
    decreases b.len(),
{
    if b.len() == 0 {
        assert(a + b == a);
    } else {
        lemma_scan_concat(s, a, b.drop_last());
        assert((a + b).drop_last() == a + b.drop_last());
        assert((a + b).last() == b.last());
    }
}

/// The scan stands inside a quote exactly after an odd number of quotes.
pub proof fn lemma_quoted_is_odd(s: Seq<char>)
    ensures
        scan_from(scan_start(), s).quoted == odd_quotes(s),
    decreases s.len(),
{
    if s.len() > 0 {
        lemma_quoted_is_odd(s.drop_last());
    }
}

/// A line is refused exactly when it holds an odd number of double quotes.
pub proof fn lemma_unterminated_is_odd(line: Seq<char>)
    ensures
        unterminated(line) == odd_quotes(line),
{
    lemma_quoted_is_odd(line);
    lemma_scan_push(scan_start(), line, ' ');
}

/// No token holds a double quote: not the one being read, and none of those
/// that are complete.
pub proof fn lemma_scan_drops_quotes(s: Seq<char>)
    ensures
        quote_free(scan_from(scan_start(), s).token),
        forall|k: int|
            0 <= k < scan_from(scan_start(), s).done.len() ==> quote_free(
                #[trigger] scan_from(scan_start(), s).done[k],
            ),
    decreases s.len(),
{
    if s.len() > 0 {
        lemma_scan_drops_quotes(s.drop_last());
    }
}

/// The tokens of a line hold no double quote.
pub proof fn lemma_tokens_hold_no_quote(line: Seq<char>)
    ensures
        forall|k: int| 0 <= k < tokens(line).len() ==> quote_free(#[trigger] tokens(line)[k]),
{
    lemma_scan_drops_quotes(line.push(' '));
}

/// On text without quotes the scan follows the fragments: the token being
/// read is the last fragment, and the complete tokens are the earlier
/// fragments that are not blank.
pub proof fn lemma_scan_follows_fragments(s: Seq<char>)
    requires
        quote_free(s),
    ensures
        fragments(s).len() >= 1,
        !scan_from(scan_start(), s).quoted,
        scan_from(scan_start(), s).token == fragments(s).last(),
        scan_from(scan_start(), s).done == fragments(s).drop_last().filter(
            |f: Seq<char>| !is_blank(f),
        ),
    decreases s.len(),
{
    reveal(Seq::filter);
    let keep = |f: Seq<char>| !is_blank(f);
    if s.len() == 0 {
        assert(fragments(s).drop_last() =~= Seq::<Seq<char>>::empty());
    } else {
        let r = s.drop_last();
        assert(quote_free(r)) by {
            assert forall|i: int| 0 <= i < r.len() implies #[trigger] r[i] != '"' by {
                assert(r[i] == s[i]);
            }
        }
        lemma_scan_follows_fragments(r);
        let f = fragments(r);
        assert(s.last() == s[s.len() - 1]);
        if s.last() == ' ' {
            assert(fragments(s).drop_last() == f);
            assert(f.filter(keep) == if keep(f.last()) {
                f.drop_last().filter(keep).push(f.last())
            } else {
                f.drop_last().filter(keep)
            });
        } else {
            assert(fragments(s).drop_last() == f.drop_last());
        }
    }
}

/// A line without quotes is never refused, and its tokens are its words:
/// the line is cut at every space, and the pieces that are not blank are
/// kept in their order.
pub proof fn lemma_unquoted_line_splits_on_spaces(line: Seq<char>)
    requires
        quote_free(line),
    ensures
        !unterminated(line),
        tokens(line) == words(line),
{
    reveal(Seq::filter);
    lemma_scan_follows_fragments(line);
    lemma_scan_push(scan_start(), line, ' ');
    let f = fragments(line);
    let keep = |f: Seq<char>| !is_blank(f);
    assert(f.filter(keep) == if keep(f.last()) {
        f.drop_last().filter(keep).push(f.last())
    } else {
        f.drop_last().filter(keep)
    });
}

/// Whether `s` holds no space.
pub open spec fn space_free(s: Seq<char>) -> bool {
    forall|i: int| 0 <= i < s.len() ==> #[trigger] s[i] != ' '
}

/// No fragment holds a space.
pub proof fn lemma_fragments_hold_no_space(s: Seq<char>)
    ensures
        fragments(s).len() >= 1,
        forall|k: int| 0 <= k < fragments(s).len() ==> space_free(#[trigger] fragments(s)[k]),
    decreases s.len(),
{
    if s.len() > 0 {
        lemma_fragments_hold_no_space(s.drop_last());
    }
}

/// The fragments of a text, joined by single spaces, are the text again.
pub proof fn lemma_fragments_rejoin(s: Seq<char>)
    ensures
        fragments(s).len() >= 1,
        joined(fragments(s), seq![' ']) == s,
    decreases s.len(),
{
    let sep = seq![' '];
    if s.len() == 0 {
    } else {
        let r = s.drop_last();
        lemma_fragments_rejoin(r);
        let f = fragments(r);
        let g = fragments(s);
        assert(s == r.push(s.last()));
        if s.last() == ' ' {
            assert(g.drop_last() == f);
            assert(joined(f, sep) + sep + Seq::<char>::empty() == r.push(' '));
        } else if f.len() == 1 {
            assert(g.len() == 1);
        } else {
            assert(g.drop_last() == f.drop_last());
            assert(joined(f.drop_last(), sep) + sep + f.last().push(s.last()) == (joined(
                f.drop_last(),
                sep,
            ) + sep + f.last()).push(s.last()));
        }
    }
}

/// Inside a quote, text without quotes joins the token as it is, spaces
/// included.
pub proof fn lemma_scan_inside_quote(s: Scan, body: Seq<char>)
    requires
        s.quoted,
        quote_free(body),
    ensures
        scan_from(s, body) == (Scan { quoted: true, token: s.token + body, done: s.done }),
    decreases body.len(),
{
    if body.len() == 0 {
        assert(s.token + body == s.token);
    } else {
        let r = body.drop_last();
        assert(quote_free(r)) by {
            assert forall|i: int| 0 <= i < r.len() implies #[trigger] r[i] != '"' by {
                assert(r[i] == body[i]);
            }
        }
        lemma_scan_inside_quote(s, r);
        assert(body.last() == body[body.len() - 1]);
        assert((s.token + r).push(body.last()) == s.token + body);
    }
}

/// A quoted segment is one token. Where `head` is empty or ends in a space
/// and holds an even number of quotes, and `body` holds no quote and is not
/// blank, the line made of `head`, a quote, `body` and a quote has the tokens
/// of `head` and then `body`, whatever spaces `body` holds.
pub proof fn lemma_quoted_segment_is_one_token(head: Seq<char>, body: Seq<char>)
    requires
        head.len() == 0 || head.last() == ' ',
        !odd_quotes(head),
        quote_free(body),
        !is_blank(body),
    ensures
        !unterminated(head + seq!['"'] + body + seq!['"']),
        tokens(head + seq!['"'] + body + seq!['"']) == tokens(head).push(body),
{
    let start = scan_start();
    let at_head = scan_from(start, head);
    lemma_quoted_is_odd(head);
    assert(at_head.token.len() == 0 && !at_head.quoted) by {
        if head.len() > 0 {
            lemma_quoted_is_odd(head.drop_last());
        }
    }
    lemma_scan_push(start, head, ' ');
    assert(tokens(head) == at_head.done);
    let opened = scan_step(at_head, '"');
    lemma_scan_push(start, head, '"');
    assert(head.push('"') == head + seq!['"']);
    lemma_scan_concat(start, head + seq!['"'], body);
    lemma_scan_inside_quote(opened, body);
    assert(opened.token + body == body);
    let line = head + seq!['"'] + body + seq!['"'];
    lemma_scan_push(start, head + seq!['"'] + body, '"');
    assert((head + seq!['"'] + body).push('"') == line);
    lemma_scan_push(start, line, ' ');
}

/// Outside quotes a second space changes nothing: a line with two spaces
/// where another has one has the same tokens, and is refused or not as the
/// other is.
pub proof fn lemma_double_space_is_one(head: Seq<char>, rest: Seq<char>)
    requires
        !odd_quotes(head),
    ensures
        scan_line(head + seq![' ', ' '] + rest) == scan_line(head + seq![' '] + rest),
        tokens(head + seq![' ', ' '] + rest) == tokens(head + seq![' '] + rest),
        unterminated(head + seq![' ', ' '] + rest) == unterminated(head + seq![' '] + rest),
{
    let start = scan_start();
    lemma_quoted_is_odd(head);
    lemma_scan_push(start, head, ' ');
    lemma_scan_push(start, head.push(' '), ' ');
    let once = scan_from(start, head.push(' '));
    let twice = scan_from(start, head.push(' ').push(' '));
    assert(once == twice);
    assert(head.push(' ') == head + seq![' ']);
    assert(head.push(' ').push(' ') == head + seq![' ', ' ']);
    lemma_scan_concat(start, head + seq![' '], rest.push(' '));
    lemma_scan_concat(start, head + seq![' ', ' '], rest.push(' '));
    assert((head + seq![' '] + rest).push(' ') == head + seq![' '] + rest.push(' '));
    assert((head + seq![' ', ' '] + rest).push(' ') == head + seq![' ', ' '] + rest.push(' '));
}

/// A space at the end of a line that closes its quotes changes nothing.
pub proof fn lemma_trailing_space_changes_nothing(line: Seq<char>)
    requires
        !odd_quotes(line),
    ensures
        scan_line(line.push(' ')) == scan_line(line),
        tokens(line.push(' ')) == tokens(line),
{
    let start = scan_start();
    lemma_quoted_is_odd(line);
    lemma_scan_push(start, line, ' ');
    lemma_scan_push(start, line.push(' '), ' ');
}

/// No complete token is blank.
pub proof fn lemma_scan_keeps_no_blank(s: Seq<char>)
    ensures
        forall|k: int|
            0 <= k < scan_from(scan_start(), s).done.len() ==> !is_blank(
                #[trigger] scan_from(scan_start(), s).done[k],
            ),
    decreases s.len(),
{
    if s.len() > 0 {
        lemma_scan_keeps_no_blank(s.drop_last());
        let before = scan_from(scan_start(), s.drop_last());
        let after = scan_from(scan_start(), s);
        assert forall|k: int| 0 <= k < after.done.len() implies !is_blank(
            #[trigger] after.done[k],
        ) by {
            if k < before.done.len() {
                assert(after.done[k] == before.done[k]);
            } else {
                assert(after.done[k] == before.token);
            }
        }
    }
}

/// No token of a line is blank. So the command name is empty only where
/// the line has no token at all, and then there is no argument either.
pub proof fn lemma_tokens_are_not_blank(line: Seq<char>)
    ensures
        forall|k: int| 0 <= k < tokens(line).len() ==> !is_blank(#[trigger] tokens(line)[k]),
        name_of(tokens(line)).len() == 0 <==> tokens(line).len() == 0,
        name_of(tokens(line)).len() == 0 ==> args_of(tokens(line)).len() == 0,
{
    lemma_scan_keeps_no_blank(line.push(' '));
    if tokens(line).len() > 0 {
        assert(!is_blank(tokens(line)[0]));
    }
}

} // verus!
