//! A runtime user request: a verb name plus optional raw argument text.
use vstd::prelude::*;
use vstd::string::*;
use crate::strx::{str_to_chars, chars_range_to_string, is_ws, is_ws_char, ws_end, tok_end, trim_end};

verus! {

/// A parsed invocation: what the user typed, split into the verb name and
/// the argument text, if any.
pub struct VerbInvocation {
    pub name: String,
    pub args: Option<String>,
}

/// The name part: the leading run of non-whitespace characters.
pub open spec fn invocation_name_spec(s: Seq<char>) -> Seq<char> {
    s.subrange(0, tok_end(s, 0))
}

/// The argument part: what follows the first whitespace run after the
/// name, trailing whitespace removed; `None` when nothing follows.
pub open spec fn invocation_args_spec(s: Seq<char>) -> Option<Seq<char>> {
    let a = ws_end(s, tok_end(s, 0));
    if a >= s.len() {
        None
    } else {
        Some(trim_end(s.subrange(a, s.len() as int)))
    }
}

/// The usage form shown to the user: the typed name followed by the
/// declared argument shape.
pub open spec fn invocation_usage(name: Seq<char>, args: Option<Seq<char>>) -> Seq<char> {
    match args {
        Some(a) => name + seq![' '] + a,
        None => name,
    }
}

impl VerbInvocation {
    /// Parses a raw user-typed string into name and argument text.
    pub fn from_string(s: &str) -> (r: VerbInvocation)
        ensures
            r.name@ == invocation_name_spec(s@),
            r.args.deep_view() == invocation_args_spec(s@),
    {
        let v = str_to_chars(s);
        let mut i: usize = 0;
        while i < v.len() && !is_ws_char(v[i])
            invariant
                i <= v.len(),
                v@ == s@,
                tok_end(s@, 0) == tok_end(s@, i as int),
            decreases v.len() - i,
        {
            i = i + 1;
        }
        proof {
            assert(tok_end(s@, i as int) == i as int);
        }
        let name = chars_range_to_string(&v, 0, i);
        let mut a: usize = i;
        while a < v.len() && is_ws_char(v[a])
            invariant
                i <= a <= v.len(),
                v@ == s@,
                ws_end(s@, i as int) == ws_end(s@, a as int),
            decreases v.len() - a,
        {
            a = a + 1;
        }
        proof {
            assert(ws_end(s@, a as int) == a as int);
        }
        if a >= v.len() {
            return VerbInvocation { name, args: None };
        }
        let mut e: usize = v.len();
        while e > a && is_ws_char(v[e - 1])
            invariant
                a <= e <= v.len(),
                v@ == s@,
                trim_end(s@.subrange(a as int, s@.len() as int)) == trim_end(
                    s@.subrange(a as int, e as int),
                ),
            decreases e,
        {
            proof {
                let cur = s@.subrange(a as int, e as int);
                assert(cur.last() == s@[e - 1]);
                assert(cur.drop_last() =~= s@.subrange(a as int, e as int - 1));
            }
            e = e - 1;
        }
        proof {
            let cur = s@.subrange(a as int, e as int);
            if e > a {
                assert(!is_ws(cur.last()));
            }
            assert(trim_end(cur) == cur);
        }
        let args = chars_range_to_string(&v, a, e);
        VerbInvocation { name, args: Some(args) }
    }

    /// The usage string for this invocation's declared shape, shown under
    /// the name the user typed.
    pub fn to_string_for_name(&self, name: &String) -> (r: String)
        ensures
            r@ == invocation_usage(name@, self.args.deep_view()),
    {
        let mut r = name.clone();
        match &self.args {
            Some(a) => {
                r.push(' ');
                r.append(a.as_str());
                proof {
                    assert(r@ =~= name@ + seq![' '] + a@);
                }
            },
            None => {},
        }
        r
    }
}

} // verus!
