//! Small string utilities shared by the tokenizer and the built-ins.

use vstd::prelude::*;

verus! {

/// `String::push` appends one character to the end of the string.
pub assume_specification[ String::push ](s: &mut String, ch: char)
    ensures
        final(s)@ == old(s)@.push(ch),
;

/// The characters of `s`, in order.
pub fn chars_of(s: &str) -> (out: Vec<char>)
    ensures
        out@ == s@,
{
    let mut out: Vec<char> = Vec::new();
    for c in it: s.chars()
        invariant
            it.seq() == s@,
            out@ == s@.take(it.index() as int),
    {
        out.push(c);
        assert(s@.take(it.index() + 1) == s@.take(it.index() as int).push(s@[it.index() as int]));
    }
    assert(s@.take(s@.len() as int) == s@);
    out
}

/// Whether `c` is white space: the code points that carry the Unicode
/// property White_Space.
pub open spec fn is_white_space(c: char) -> bool {
    let n = c as u32;
    ||| 0x09 <= n <= 0x0D
    ||| n == 0x20
    ||| n == 0x85
    ||| n == 0xA0
    ||| n == 0x1680
    ||| 0x2000 <= n <= 0x200A
    ||| n == 0x2028
    ||| n == 0x2029
    ||| n == 0x202F
    ||| n == 0x205F
    ||| n == 0x3000
}

/// Whether every character of `t` is white space; the empty text is blank.
pub open spec fn is_blank(t: Seq<char>) -> bool {
    forall|i: int| 0 <= i < t.len() ==> is_white_space(#[trigger] t[i])
}

/// The texts that a sequence of strings holds, in order.
pub open spec fn texts(v: Seq<String>) -> Seq<Seq<char>> {
    Seq::new(v.len(), |i: int| v[i]@)
}

/// Tests a character for white space.
pub fn is_space_char(c: char) -> (b: bool)
    ensures
        b == is_white_space(c),
{
    let n: u32 = c as u32;
    (0x09 <= n && n <= 0x0D) || n == 0x20 || n == 0x85 || n == 0xA0 || n == 0x1680 || (0x2000 <= n
        && n <= 0x200A) || n == 0x2028 || n == 0x2029 || n == 0x202F || n == 0x205F || n == 0x3000
}

/// The texts of `parts` written one after another with `sep` between each
/// two neighbours.
pub open spec fn joined(parts: Seq<Seq<char>>, sep: Seq<char>) -> Seq<char>
    decreases parts.len(),
{
    if parts.len() == 0 {
        Seq::empty()
    } else if parts.len() == 1 {
        parts[0]
    } else {
        joined(parts.drop_last(), sep) + sep + parts.last()
    }
}

/// Joins the strings of `parts` from index `start` on, with `sep` between
/// each two neighbours.
pub fn join_from(parts: &Vec<String>, start: usize, sep: &str) -> (out: String)
    requires
        start <= parts.len(),
    ensures
        out@ == joined(texts(parts@).skip(start as int), sep@),
{
    let mut out = String::new();
    let mut i: usize = start;
    while i < parts.len()
        invariant
            start <= i <= parts.len(),
            out@ == joined(texts(parts@).subrange(start as int, i as int), sep@),
        decreases parts.len() - i,
    {
        let ghost seen = texts(parts@).subrange(start as int, i as int);
        let ghost next = texts(parts@).subrange(start as int, i + 1);
        proof {
            assert(next.drop_last() == seen);
            assert(next.last() == parts@[i as int]@);
        }
        if i > start {
            out.append(sep);
        }
        out.append(parts[i].as_str());
        i += 1;
    }
    proof {
        assert(texts(parts@).subrange(start as int, parts.len() as int) == texts(parts@).skip(
            start as int,
        ));
    }
    out
}

/// Whether two strings hold the same text.
pub fn same_text(a: &str, b: &str) -> (same: bool)
    ensures
        same == (a@ == b@),
{
    let x = chars_of(a);
    let y = chars_of(b);
    if x.len() != y.len() {
        return false;
    }
    let mut i: usize = 0;
    while i < x.len()
        invariant
            i <= x.len(),
            x.len() == y.len(),
            x@ == a@,
            y@ == b@,
            forall|k: int| 0 <= k < i ==> x@[k] == y@[k],
        decreases x.len() - i,
    {
        if x[i] != y[i] {
            return false;
        }
        i += 1;
    }
    assert(x@ =~= y@);
    true
}

} // verus!
