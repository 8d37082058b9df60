//! Character-level string utilities: conversion between `String` and
//! `Vec<char>`, Unicode whitespace, whitespace splitting and joining.
use vstd::prelude::*;
use vstd::string::*;

verus! {

/// Relies on `String::push`: appends the given character at the end.
pub assume_specification[ String::push ](s: &mut String, ch: char)
    ensures
        final(s)@ == old(s)@.push(ch),
;

/// The Unicode `White_Space` characters, the ones `split_whitespace`
/// splits on.
pub open spec fn is_ws(c: char) -> bool {
    let u = c as u32;
    ||| u == 0x20
    ||| (0x09 <= u && u <= 0x0d)
    ||| u == 0x85
    ||| u == 0xa0
    ||| u == 0x1680
    ||| (0x2000 <= u && u <= 0x200a)
    ||| u == 0x2028
    ||| u == 0x2029
    ||| u == 0x202f
    ||| u == 0x205f
    ||| u == 0x3000
}

pub fn is_ws_char(c: char) -> (r: bool)
    ensures
        r == is_ws(c),
{
    let u = c as u32;
    u == 0x20 || (0x09 <= u && u <= 0x0d) || u == 0x85 || u == 0xa0 || u == 0x1680 || (0x2000 <= u
        && u <= 0x200a) || u == 0x2028 || u == 0x2029 || u == 0x202f || u == 0x205f || u == 0x3000
}

/// The characters of `s`, one `char` per element of its view.
pub fn str_to_chars(s: &str) -> (r: Vec<char>)
    ensures
        r@ == s@,
{
    let n = s.unicode_len();
    let mut r: Vec<char> = Vec::new();
    let mut i: usize = 0;
    while i < n
        invariant
            n == s@.len(),
            i <= n,
            r@ == s@.subrange(0, i as int),
        decreases n - i,
    {
        r.push(s.get_char(i));
        i = i + 1;
        proof {
            assert(r@ =~= s@.subrange(0, i as int));
        }
    }
    proof {
        assert(r@ =~= s@);
    }
    r
}

/// The `String` whose characters are exactly `v`.
pub fn chars_to_string(v: &Vec<char>) -> (r: String)
    ensures
        r@ == v@,
{
    let mut r = String::new();
    let mut i: usize = 0;
    while i < v.len()
        invariant
            i <= v.len(),
            r@ == v@.subrange(0, i as int),
        decreases v.len() - i,
    {
        r.push(v[i]);
        i = i + 1;
        proof {
            assert(r@ =~= v@.subrange(0, i as int));
        }
    }
    proof {
        assert(r@ =~= v@);
    }
    r
}

/// The `String` holding the characters `v[a..b]`.
pub fn chars_range_to_string(v: &Vec<char>, a: usize, b: usize) -> (r: String)
    requires
        a <= b <= v.len(),
    ensures
        r@ == v@.subrange(a as int, b as int),
{
    let mut r = String::new();
    let mut i: usize = a;
    while i < b
        invariant
            a <= i <= b <= v.len(),
            r@ == v@.subrange(a as int, i as int),
        decreases b - i,
    {
        r.push(v[i]);
        i = i + 1;
        proof {
            assert(r@ =~= v@.subrange(a as int, i as int));
        }
    }
    r
}

/// Appends the characters of `s` to `out`.
pub fn append_str_chars(out: &mut Vec<char>, s: &str)
    ensures
        final(out)@ == old(out)@ + s@,
{
    let n = s.unicode_len();
    let mut i: usize = 0;
    while i < n
        invariant
            n == s@.len(),
            i <= n,
            out@ == old(out)@ + s@.subrange(0, i as int),
        decreases n - i,
    {
        out.push(s.get_char(i));
        i = i + 1;
        proof {
            assert(out@ =~= old(out)@ + s@.subrange(0, i as int));
        }
    }
    proof {
        assert(out@ =~= old(out)@ + s@);
    }
}

/// Whether two string slices hold the same characters.
pub fn str_eq(a: &str, b: &str) -> (r: bool)
    ensures
        r == (a@ == b@),
{
    let na = a.unicode_len();
    let nb = b.unicode_len();
    if na != nb {
        proof {
            assert(a@ != b@);
        }
        return false;
    }
    let mut i: usize = 0;
    while i < na
        invariant
            na == a@.len() && na == b@.len(),
            i <= na,
            forall|k: int| 0 <= k < i ==> a@[k] == b@[k],
        decreases na - i,
    {
        if a.get_char(i) != b.get_char(i) {
            proof {
                assert(a@ != b@);
            }
            return false;
        }
        i = i + 1;
    }
    proof {
        assert(a@ =~= b@);
    }
    true
}

/// First position at or after `i` that is not whitespace (or the end).
pub open spec fn ws_end(s: Seq<char>, i: int) -> int
    decreases s.len() - i,
{
    if 0 <= i && i < s.len() && is_ws(s[i]) {
        ws_end(s, i + 1)
    } else {
        i
    }
}

/// First position at or after `i` that is whitespace (or the end).
pub open spec fn tok_end(s: Seq<char>, i: int) -> int
    decreases s.len() - i,
{
    if 0 <= i && i < s.len() && !is_ws(s[i]) {
        tok_end(s, i + 1)
    } else {
        i
    }
}

pub proof fn lemma_ws_end(s: Seq<char>, i: int)
    requires
        0 <= i <= s.len(),
    ensures
        i <= ws_end(s, i) <= s.len(),
        forall|k: int| i <= k < ws_end(s, i) ==> is_ws(s[k]),
        ws_end(s, i) < s.len() ==> !is_ws(s[ws_end(s, i)]),
    decreases s.len() - i,
{
    if i < s.len() && is_ws(s[i]) {
        lemma_ws_end(s, i + 1);
    }
}

pub proof fn lemma_tok_end(s: Seq<char>, i: int)
    requires
        0 <= i <= s.len(),
    ensures
        i <= tok_end(s, i) <= s.len(),
        forall|k: int| i <= k < tok_end(s, i) ==> !is_ws(s[k]),
        tok_end(s, i) < s.len() ==> is_ws(s[tok_end(s, i)]),
        i < s.len() && !is_ws(s[i]) ==> tok_end(s, i) >= i + 1,
    decreases s.len() - i,
{
    if i < s.len() && !is_ws(s[i]) {
        lemma_tok_end(s, i + 1);
    }
}

/// The whitespace-separated tokens of `s` from position `i` on.
pub open spec fn split_ws_from(s: Seq<char>, i: int) -> Seq<Seq<char>>
    decreases s.len() - i,
    via split_ws_from_dec
{
    if !(0 <= i && i <= s.len()) {
        Seq::empty()
    } else {
        let a = ws_end(s, i);
        if a >= s.len() {
            Seq::empty()
        } else {
            seq![s.subrange(a, tok_end(s, a))] + split_ws_from(s, tok_end(s, a))
        }
    }
}

#[via_fn]
proof fn split_ws_from_dec(s: Seq<char>, i: int) {
    if 0 <= i && i <= s.len() {
        lemma_ws_end(s, i);
        let a = ws_end(s, i);
        if a < s.len() {
            lemma_tok_end(s, a);
        }
    }
}

/// The whitespace-separated tokens of `s`, in order.
pub open spec fn split_ws(s: Seq<char>) -> Seq<Seq<char>> {
    split_ws_from(s, 0)
}

/// Tokens joined with one space between each pair.
pub open spec fn join_sp(toks: Seq<Seq<char>>) -> Seq<char>
    decreases toks.len(),
{
    if toks.len() == 0 {
        Seq::empty()
    } else if toks.len() == 1 {
        toks[0]
    } else {
        toks[0] + seq![' '] + join_sp(toks.drop_first())
    }
}

pub proof fn lemma_join_push(toks: Seq<Seq<char>>, t: Seq<char>)
    ensures
        toks.len() == 0 ==> join_sp(toks.push(t)) == t,
        toks.len() > 0 ==> join_sp(toks.push(t)) == join_sp(toks) + seq![' '] + t,
    decreases toks.len(),
{
    if toks.len() == 0 {
        assert(toks.push(t)[0] == t);
    } else {
        assert(toks.push(t).drop_first() =~= toks.drop_first().push(t));
        lemma_join_push(toks.drop_first(), t);
        if toks.len() == 1 {
            assert(join_sp(toks.push(t)) =~= toks[0] + seq![' '] + t);
            assert(join_sp(toks) + seq![' '] + t =~= toks[0] + seq![' '] + t);
        } else {
            assert(join_sp(toks) + seq![' '] + t =~= toks[0] + seq![' '] + (join_sp(
                toks.drop_first(),
            ) + seq![' '] + t));
        }
    }
}

/// Splits the characters of `s` into whitespace-separated tokens.
pub fn split_ws_exec(s: &Vec<char>) -> (r: Vec<Vec<char>>)
    ensures
        r.deep_view() == split_ws(s@),
{
    let mut r: Vec<Vec<char>> = Vec::new();
    let mut i: usize = 0;
    proof {
        assert(r.deep_view() =~= Seq::<Seq<char>>::empty());
    }
    loop
        invariant
            i <= s.len(),
            split_ws(s@) == r.deep_view() + split_ws_from(s@, i as int),
        decreases s.len() - i,
    {
        let ghost i0 = i as int;
        // skip whitespace
        while i < s.len() && is_ws_char(s[i])
            invariant
                i0 <= i <= s.len(),
                ws_end(s@, i0) == ws_end(s@, i as int),
            decreases s.len() - i,
        {
            i = i + 1;
        }
        proof {
            assert(ws_end(s@, i as int) == i as int);
            assert(ws_end(s@, i0) == i as int);
        }
        if i >= s.len() {
            proof {
                assert(split_ws_from(s@, i0) =~= Seq::<Seq<char>>::empty());
                assert(r.deep_view() + Seq::<Seq<char>>::empty() =~= r.deep_view());
            }
            return r;
        }
        let ghost a = i as int;
        let mut tok: Vec<char> = Vec::new();
        while i < s.len() && !is_ws_char(s[i])
            invariant
                0 <= a <= i <= s.len(),
                tok_end(s@, a) == tok_end(s@, i as int),
                tok@ == s@.subrange(a, i as int),
            decreases s.len() - i,
        {
            tok.push(s[i]);
            i = i + 1;
            proof {
                assert(tok@ =~= s@.subrange(a, i as int));
            }
        }
        proof {
            assert(tok_end(s@, i as int) == i as int);
            assert(tok_end(s@, a) == i as int);
            assert(split_ws_from(s@, i0) =~= seq![s@.subrange(a, i as int)] + split_ws_from(
                s@,
                i as int,
            ));
        }
        let ghost old_rdv = r.deep_view();
        r.push(tok);
        proof {
            assert(tok.deep_view() =~= s@.subrange(a, i as int));
            assert(r.deep_view() =~= old_rdv.push(s@.subrange(a, i as int)));
            assert(r.deep_view() + split_ws_from(s@, i as int) =~= old_rdv + split_ws_from(s@, i0));
        }
    }
}

/// `s` with trailing whitespace removed.
pub open spec fn trim_end(s: Seq<char>) -> Seq<char>
    decreases s.len(),
{
    if s.len() > 0 && is_ws(s.last()) {
        trim_end(s.drop_last())
    } else {
        s
    }
}

} // verus!
