//! The execution-pattern mini-language: `{name}` and `{name:directive}`
//! placeholders, their replacement, and the two expansion modes.
use vstd::prelude::*;
use vstd::string::*;
use crate::strx::{
    str_to_chars,
    chars_to_string,
    chars_range_to_string,
    append_str_chars,
    str_eq,
    split_ws,
    split_ws_exec,
    join_sp,
    lemma_join_push,
};
use crate::repmap::RepMap;
use crate::path::{path_from_spec, path_from_with_home, PathSource};

verus! {

/// A character that may not stand inside a placeholder name or directive.
pub open spec fn brace_char(c: char) -> bool {
    c == '{' || c == '}' || c == ':'
}

fn brace_char_exec(c: char) -> (r: bool)
    ensures
        r == brace_char(c),
{
    c == '{' || c == '}' || c == ':'
}

/// First position at or after `i` holding a brace character (or the end).
pub open spec fn name_end(s: Seq<char>, i: int) -> int
    decreases s.len() - i,
{
    if 0 <= i && i < s.len() && !brace_char(s[i]) {
        name_end(s, i + 1)
    } else {
        i
    }
}

pub proof fn lemma_name_end(s: Seq<char>, i: int)
    requires
        0 <= i <= s.len(),
    ensures
        i <= name_end(s, i) <= s.len(),
        forall|k: int| i <= k < name_end(s, i) ==> !brace_char(s[k]),
        name_end(s, i) < s.len() ==> brace_char(s[name_end(s, i)]),
    decreases s.len() - i,
{
    if i < s.len() && !brace_char(s[i]) {
        lemma_name_end(s, i + 1);
    }
}

/// A placeholder `{name}` or `{name:directive}` begins at `i`.
pub open spec fn ph_at(s: Seq<char>, i: int) -> bool {
    let n = name_end(s, i + 1);
    &&& 0 <= i && i < s.len() && s[i] == '{'
    &&& n >= i + 2
    &&& n < s.len()
    &&& (s[n] == '}' || (s[n] == ':' && {
        let d = name_end(s, n + 1);
        d >= n + 2 && d < s.len() && s[d] == '}'
    }))
}

pub open spec fn ph_name(s: Seq<char>, i: int) -> Seq<char> {
    s.subrange(i + 1, name_end(s, i + 1))
}

pub open spec fn ph_dir(s: Seq<char>, i: int) -> Option<Seq<char>> {
    let n = name_end(s, i + 1);
    if s[n] == ':' {
        Some(s.subrange(n + 1, name_end(s, n + 1)))
    } else {
        None
    }
}

/// The position just after the closing brace.
pub open spec fn ph_end(s: Seq<char>, i: int) -> int {
    let n = name_end(s, i + 1);
    if s[n] == ':' {
        name_end(s, n + 1) + 1
    } else {
        n + 1
    }
}

pub proof fn lemma_ph_bounds(s: Seq<char>, i: int)
    requires
        ph_at(s, i),
    ensures
        i + 3 <= ph_end(s, i) <= s.len(),
{
    lemma_name_end(s, i + 1);
    let n = name_end(s, i + 1);
    if s[n] == ':' {
        lemma_name_end(s, n + 1);
    }
}

/// What one placeholder becomes: the mapped value (resolved as a path
/// under a directive), a visible error marker for an unknown directive,
/// or the placeholder text itself when the name has no mapping.
pub open spec fn replacement_spec(
    name: Seq<char>,
    dir: Option<Seq<char>>,
    map: Map<Seq<char>, Seq<char>>,
    home: Option<Seq<char>>,
) -> Seq<char> {
    if map.contains_key(name) {
        match dir {
            None => map[name],
            Some(d) => if d == "path-from-directory"@ {
                path_from_spec("directory"@, map[name], map, home)
            } else if d == "path-from-parent"@ {
                path_from_spec("parent"@, map[name], map, home)
            } else {
                "invalid format: \""@ + d + "\""@
            },
        }
    } else {
        "{"@ + name + "}"@
    }
}

/// The expansion of `s` from position `i` on: placeholders replaced,
/// other characters kept.
pub open spec fn expand_from(
    s: Seq<char>,
    i: int,
    map: Map<Seq<char>, Seq<char>>,
    home: Option<Seq<char>>,
) -> Seq<char>
    decreases s.len() - i,
    via expand_from_dec
{
    if !(0 <= i && i < s.len()) {
        Seq::empty()
    } else if ph_at(s, i) {
        replacement_spec(ph_name(s, i), ph_dir(s, i), map, home) + expand_from(
            s,
            ph_end(s, i),
            map,
            home,
        )
    } else {
        seq![s[i]] + expand_from(s, i + 1, map, home)
    }
}

#[via_fn]
proof fn expand_from_dec(
    s: Seq<char>,
    i: int,
    map: Map<Seq<char>, Seq<char>>,
    home: Option<Seq<char>>,
) {
    if 0 <= i && i < s.len() && ph_at(s, i) {
        lemma_ph_bounds(s, i);
    }
}

pub open spec fn expand_spec(
    s: Seq<char>,
    map: Map<Seq<char>, Seq<char>>,
    home: Option<Seq<char>>,
) -> Seq<char> {
    expand_from(s, 0, map, home)
}

/// Parses a placeholder starting at `i`, handing back its name, its
/// directive if any, and the position after the closing brace.
fn parse_ph(s: &Vec<char>, i: usize) -> (r: Option<(String, Option<String>, usize)>)
    requires
        i < s.len(),
    ensures
        r is Some <==> ph_at(s@, i as int),
        r matches Some(p) ==> ({
            &&& p.0@ == ph_name(s@, i as int)
            &&& p.1.deep_view() == ph_dir(s@, i as int)
            &&& p.2 as int == ph_end(s@, i as int)
            &&& i < p.2 <= s.len()
        }),
{
    if s[i] != '{' {
        return None;
    }
    let mut j: usize = i + 1;
    while j < s.len() && !brace_char_exec(s[j])
        invariant
            i + 1 <= j <= s.len(),
            name_end(s@, i as int + 1) == name_end(s@, j as int),
        decreases s.len() - j,
    {
        j = j + 1;
    }
    proof {
        assert(name_end(s@, j as int) == j as int);
    }
    if j == i + 1 || j >= s.len() {
        return None;
    }
    if s[j] == '}' {
        let name = chars_range_to_string(s, i + 1, j);
        proof {
            lemma_ph_bounds(s@, i as int);
        }
        return Some((name, None, j + 1));
    }
    if s[j] == ':' {
        let mut k: usize = j + 1;
        while k < s.len() && !brace_char_exec(s[k])
            invariant
                j + 1 <= k <= s.len(),
                name_end(s@, j as int + 1) == name_end(s@, k as int),
            decreases s.len() - k,
        {
            k = k + 1;
        }
        proof {
            assert(name_end(s@, k as int) == k as int);
        }
        if k == j + 1 || k >= s.len() {
            return None;
        }
        if s[k] == '}' {
            let name = chars_range_to_string(s, i + 1, j);
            let dir = chars_range_to_string(s, j + 1, k);
            proof {
                lemma_ph_bounds(s@, i as int);
            }
            return Some((name, Some(dir), k + 1));
        }
        return None;
    }
    None
}

/// Replaces one parsed placeholder using the map, the home directory as
/// given, and the path resolver for the two path directives.
fn do_exec_replacement(
    name: &String,
    dir: &Option<String>,
    map: &RepMap,
    home: &Option<String>,
) -> (r: String)
    requires
        map@.contains_key("directory"@),
        map@.contains_key("parent"@),
    ensures
        r@ == replacement_spec(name@, dir.deep_view(), map@, home.deep_view()),
{
    match map.get(name.as_str()) {
        Some(v) => {
            match dir {
                None => v.clone(),
                Some(d) => {
                    if str_eq(d.as_str(), "path-from-directory") {
                        path_from_with_home(PathSource::Directory, v, map, home)
                    } else if str_eq(d.as_str(), "path-from-parent") {
                        path_from_with_home(PathSource::Parent, v, map, home)
                    } else {
                        let mut m = String::from_str("invalid format: \"");
                        m.append(d.as_str());
                        m.append("\"");
                        m
                    }
                },
            }
        },
        None => {
            let mut m = String::from_str("{");
            m.append(name.as_str());
            m.append("}");
            m
        },
    }
}

/// Expands every placeholder of `s`, keeping the other characters.
pub fn expand_exec(s: &Vec<char>, map: &RepMap, home: &Option<String>) -> (out: Vec<char>)
    requires
        map@.contains_key("directory"@),
        map@.contains_key("parent"@),
    ensures
        out@ == expand_spec(s@, map@, home.deep_view()),
{
    let mut out: Vec<char> = Vec::new();
    let mut i: usize = 0;
    while i < s.len()
        invariant
            i <= s.len(),
            map@.contains_key("directory"@),
            map@.contains_key("parent"@),
            expand_from(s@, 0, map@, home.deep_view()) == out@ + expand_from(
                s@,
                i as int,
                map@,
                home.deep_view(),
            ),
        decreases s.len() - i,
    {
        let ghost m = map@;
        let ghost h = home.deep_view();
        match parse_ph(s, i) {
            Some((name, dir, end)) => {
                let rep = do_exec_replacement(&name, &dir, map, home);
                let ghost out0 = out@;
                append_str_chars(&mut out, rep.as_str());
                proof {
                    assert(expand_from(s@, i as int, m, h) == replacement_spec(
                        ph_name(s@, i as int),
                        ph_dir(s@, i as int),
                        m,
                        h,
                    ) + expand_from(s@, end as int, m, h));
                    assert(out0 + expand_from(s@, i as int, m, h) =~= out@ + expand_from(
                        s@,
                        end as int,
                        m,
                        h,
                    ));
                }
                i = end;
            },
            None => {
                let ghost out0 = out@;
                out.push(s[i]);
                proof {
                    assert(expand_from(s@, i as int, m, h) == seq![s@[i as int]] + expand_from(
                        s@,
                        i as int + 1,
                        m,
                        h,
                    ));
                    assert(out0 + expand_from(s@, i as int, m, h) =~= out@ + expand_from(
                        s@,
                        i as int + 1,
                        m,
                        h,
                    ));
                }
                i = i + 1;
            },
        }
    }
    proof {
        assert(expand_from(s@, i as int, map@, home.deep_view()) =~= Seq::<char>::empty());
        assert(out@ + Seq::<char>::empty() =~= out@);
    }
    out
}

/// Token mode: the pattern is split on whitespace first and each token is
/// expanded on its own, so a substituted value stays one token.
pub open spec fn token_expand_spec(
    pattern: Seq<char>,
    map: Map<Seq<char>, Seq<char>>,
    home: Option<Seq<char>>,
) -> Seq<Seq<char>> {
    split_ws(pattern).map_values(|t: Seq<char>| expand_spec(t, map, home))
}

/// Token-mode expansion expands each whitespace-token of the pattern
/// independently: the output has exactly one token per pattern token, so
/// a substituted value keeps any whitespace it holds inside one token.
pub proof fn lemma_token_mode_structure(
    pattern: Seq<char>,
    map: Map<Seq<char>, Seq<char>>,
    home: Option<Seq<char>>,
)
    ensures
        token_expand_spec(pattern, map, home).len() == split_ws(pattern).len(),
        forall|i: int|
            0 <= i < split_ws(pattern).len() ==> token_expand_spec(pattern, map, home)[i]
                == expand_spec(split_ws(pattern)[i], map, home),
{
}

pub fn expand_tokens(pattern: &String, map: &RepMap, home: &Option<String>) -> (r: Vec<String>)
    requires
        map@.contains_key("directory"@),
        map@.contains_key("parent"@),
    ensures
        r.deep_view() == token_expand_spec(pattern@, map@, home.deep_view()),
{
    let chars = str_to_chars(pattern.as_str());
    let toks = split_ws_exec(&chars);
    let mut r: Vec<String> = Vec::new();
    let mut i: usize = 0;
    while i < toks.len()
        invariant
            i <= toks.len(),
            map@.contains_key("directory"@),
            map@.contains_key("parent"@),
            toks.deep_view() == split_ws(pattern@),
            r.deep_view().len() == i,
            forall|k: int|
                0 <= k < i ==> r.deep_view()[k] == expand_spec(
                    split_ws(pattern@)[k],
                    map@,
                    home.deep_view(),
                ),
        decreases toks.len() - i,
    {
        proof {
            assert(toks[i as int]@ == toks.deep_view()[i as int]);
        }
        let e = expand_exec(&toks[i], map, home);
        let ghost rdv = r.deep_view();
        r.push(chars_to_string(&e));
        proof {
            assert(r.deep_view() =~= rdv.push(e@));
        }
        i = i + 1;
    }
    proof {
        assert(r.deep_view() =~= token_expand_spec(pattern@, map@, home.deep_view()));
    }
    r
}

/// Shell-string mode: the whole pattern expanded as one string, re-split
/// on whitespace and joined with single spaces.
pub open spec fn shell_expand_spec(
    pattern: Seq<char>,
    map: Map<Seq<char>, Seq<char>>,
    home: Option<Seq<char>>,
) -> Seq<char> {
    join_sp(split_ws(expand_spec(pattern, map, home)))
}

pub fn expand_shell_string(pattern: &String, map: &RepMap, home: &Option<String>) -> (r: String)
    requires
        map@.contains_key("directory"@),
        map@.contains_key("parent"@),
    ensures
        r@ == shell_expand_spec(pattern@, map@, home.deep_view()),
{
    let chars = str_to_chars(pattern.as_str());
    let e = expand_exec(&chars, map, home);
    let toks = split_ws_exec(&e);
    let ghost tdv = toks.deep_view();
    let mut out: Vec<char> = Vec::new();
    let mut i: usize = 0;
    while i < toks.len()
        invariant
            i <= toks.len(),
            tdv == toks.deep_view(),
            out@ == join_sp(tdv.subrange(0, i as int)),
        decreases toks.len() - i,
    {
        let ghost out0 = out@;
        if i > 0 {
            out.push(' ');
        }
        let mut k: usize = 0;
        let ghost outsp = out@;
        while k < toks[i].len()
            invariant
                i < toks.len(),
                k <= toks[i as int]@.len(),
                out@ == outsp + toks[i as int]@.subrange(0, k as int),
            decreases toks[i as int]@.len() - k,
        {
            out.push(toks[i][k]);
            k = k + 1;
            proof {
                assert(out@ =~= outsp + toks[i as int]@.subrange(0, k as int));
            }
        }
        proof {
            let t = tdv[i as int];
            assert(toks[i as int]@ == t);
            assert(toks[i as int]@.subrange(0, toks[i as int]@.len() as int) =~= t);
            lemma_join_push(tdv.subrange(0, i as int), t);
            assert(tdv.subrange(0, i as int).push(t) =~= tdv.subrange(0, i as int + 1));
            if i == 0 {
                assert(out@ =~= t);
            } else {
                assert(out@ =~= join_sp(tdv.subrange(0, i as int)) + seq![' '] + t);
            }
        }
        i = i + 1;
    }
    proof {
        assert(tdv.subrange(0, tdv.len() as int) =~= tdv);
    }
    chars_to_string(&out)
}

/// The argument-shape pattern derived from a declared invocation: each
/// placeholder becomes a named one-or-more capture, the rest is copied.
pub open spec fn args_pattern_from(s: Seq<char>, i: int) -> Seq<char>
    decreases s.len() - i,
    via args_pattern_from_dec
{
    if !(0 <= i && i < s.len()) {
        Seq::empty()
    } else if ph_at(s, i) {
        "(?P<"@ + ph_name(s, i) + ">.+)"@ + args_pattern_from(s, ph_end(s, i))
    } else {
        seq![s[i]] + args_pattern_from(s, i + 1)
    }
}

#[via_fn]
proof fn args_pattern_from_dec(s: Seq<char>, i: int) {
    if 0 <= i && i < s.len() && ph_at(s, i) {
        lemma_ph_bounds(s, i);
    }
}

/// The full anchored pattern.
pub open spec fn args_pattern_spec(s: Seq<char>) -> Seq<char> {
    seq!['^'] + args_pattern_from(s, 0) + seq!['$']
}

/// Builds the anchored argument-shape pattern for a declared invocation.
pub fn build_args_pattern(decl: &String) -> (r: String)
    ensures
        r@ == args_pattern_spec(decl@),
{
    let s = str_to_chars(decl.as_str());
    let mut out: Vec<char> = Vec::new();
    out.push('^');
    let mut i: usize = 0;
    while i < s.len()
        invariant
            i <= s.len(),
            s@ == decl@,
            seq!['^'] + args_pattern_from(s@, 0) == out@ + args_pattern_from(s@, i as int),
        decreases s.len() - i,
    {
        match parse_ph(&s, i) {
            Some((name, _dir, end)) => {
                let ghost out0 = out@;
                append_str_chars(&mut out, "(?P<");
                append_str_chars(&mut out, name.as_str());
                append_str_chars(&mut out, ">.+)");
                proof {
                    assert(args_pattern_from(s@, i as int) == "(?P<"@ + ph_name(s@, i as int)
                        + ">.+)"@ + args_pattern_from(s@, end as int));
                    assert(out0 + args_pattern_from(s@, i as int) =~= out@ + args_pattern_from(
                        s@,
                        end as int,
                    ));
                }
                i = end;
            },
            None => {
                let ghost out0 = out@;
                out.push(s[i]);
                proof {
                    assert(args_pattern_from(s@, i as int) == seq![s@[i as int]]
                        + args_pattern_from(s@, i as int + 1));
                    assert(out0 + args_pattern_from(s@, i as int) =~= out@ + args_pattern_from(
                        s@,
                        i as int + 1,
                    ));
                }
                i = i + 1;
            },
        }
    }
    out.push('$');
    proof {
        assert(args_pattern_from(s@, i as int) =~= Seq::<char>::empty());
        assert(out@ =~= args_pattern_spec(decl@));
    }
    chars_to_string(&out)
}

} // verus!
