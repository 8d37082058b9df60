//! Shell-safe quoting of path strings.
use vstd::prelude::*;
use crate::strx::{str_to_chars, chars_to_string};

verus! {

/// Characters that need no quoting in a shell word.
pub open spec fn shell_safe_char(c: char) -> bool {
    ||| ('a' <= c && c <= 'z')
    ||| ('A' <= c && c <= 'Z')
    ||| ('0' <= c && c <= '9')
    ||| c == '_'
    ||| c == '/'
    ||| c == '.'
    ||| c == '-'
}

pub open spec fn all_shell_safe(s: Seq<char>) -> bool {
    forall|i: int| 0 <= i < s.len() ==> shell_safe_char(s[i])
}

/// Each single quote becomes `'\''`; other characters stay.
pub open spec fn quote_chars(s: Seq<char>) -> Seq<char>
    decreases s.len(),
{
    if s.len() == 0 {
        Seq::empty()
    } else {
        quote_chars(s.drop_last()) + (if s.last() == '\'' {
            seq!['\'', '\\', '\'', '\'']
        } else {
            seq![s.last()]
        })
    }
}

/// A string made safe for a shell command line: kept as is when every
/// character is harmless, otherwise wrapped in single quotes with inner
/// quotes escaped.
pub open spec fn escape_spec(s: Seq<char>) -> Seq<char> {
    if all_shell_safe(s) {
        s
    } else {
        seq!['\''] + quote_chars(s) + seq!['\'']
    }
}

fn shell_safe_char_exec(c: char) -> (r: bool)
    ensures
        r == shell_safe_char(c),
{
    ('a' <= c && c <= 'z') || ('A' <= c && c <= 'Z') || ('0' <= c && c <= '9') || c == '_' || c
        == '/' || c == '.' || c == '-'
}

/// Escapes `s` so that a shell reads it back as this one literal word.
pub fn escape_for_shell(s: &String) -> (r: String)
    ensures
        r@ == escape_spec(s@),
{
    let v = str_to_chars(s.as_str());
    let mut safe = true;
    let mut i: usize = 0;
    while i < v.len()
        invariant
            i <= v.len(),
            v@ == s@,
            safe == (forall|k: int| 0 <= k < i ==> shell_safe_char(s@[k])),
        decreases v.len() - i,
    {
        if !shell_safe_char_exec(v[i]) {
            safe = false;
        }
        i = i + 1;
    }
    if safe {
        proof {
            assert(all_shell_safe(s@));
        }
        return s.clone();
    }
    let mut out: Vec<char> = Vec::new();
    out.push('\'');
    let mut j: usize = 0;
    while j < v.len()
        invariant
            j <= v.len(),
            v@ == s@,
            out@ == seq!['\''] + quote_chars(s@.subrange(0, j as int)),
        decreases v.len() - j,
    {
        let ghost pre = s@.subrange(0, j as int);
        if v[j] == '\'' {
            out.push('\'');
            out.push('\\');
            out.push('\'');
            out.push('\'');
        } else {
            out.push(v[j]);
        }
        j = j + 1;
        proof {
            let post = s@.subrange(0, j as int);
            assert(post.drop_last() =~= pre);
            assert(post.last() == s@[j - 1]);
            assert(out@ =~= seq!['\''] + quote_chars(post));
        }
    }
    out.push('\'');
    proof {
        assert(s@.subrange(0, v@.len() as int) =~= s@);
        assert(!all_shell_safe(s@));
        assert(out@ =~= seq!['\''] + quote_chars(s@) + seq!['\'']);
    }
    chars_to_string(&out)
}

} // verus!
