//! Textual path handling: `..` collapsing, parent computation, and the
//! text form of a path with optional shell escaping.
use vstd::prelude::*;
use vstd::string::*;
use crate::strx::{str_to_chars, chars_to_string};
use crate::shell::{escape_spec, escape_for_shell};
use crate::repmap::RepMap;

verus! {

/// A character that may stand inside a collapsible path segment: any but
/// `/` and `.`.
pub open spec fn seg_char(c: char) -> bool {
    c != '/' && c != '.'
}

fn seg_char_exec(c: char) -> (r: bool)
    ensures
        r == seg_char(c),
{
    c != '/' && c != '.'
}

/// First position at or after `i` that does not hold a segment character
/// (or the end).
pub open spec fn seg_end(s: Seq<char>, i: int) -> int
    decreases s.len() - i,
{
    if 0 <= i && i < s.len() && seg_char(s[i]) {
        seg_end(s, i + 1)
    } else {
        i
    }
}

pub proof fn lemma_seg_end(s: Seq<char>, i: int)
    requires
        0 <= i <= s.len(),
    ensures
        i <= seg_end(s, i) <= s.len(),
        forall|k: int| i <= k < seg_end(s, i) ==> seg_char(s[k]),
        seg_end(s, i) < s.len() ==> !seg_char(s[seg_end(s, i)]),
        i < s.len() && seg_char(s[i]) ==> seg_end(s, i) >= i + 1,
    decreases s.len() - i,
{
    if i < s.len() && seg_char(s[i]) {
        lemma_seg_end(s, i + 1);
    }
}

/// A collapsible occurrence starts at `i`: a `/`, one or more segment
/// characters, then `/..`.
pub open spec fn redex_at(s: Seq<char>, i: int) -> bool {
    let j = seg_end(s, i + 1);
    &&& 0 <= i && i < s.len() && s[i] == '/'
    &&& j >= i + 2
    &&& j + 3 <= s.len()
    &&& s[j] == '/' && s[j + 1] == '.' && s[j + 2] == '.'
}

/// `s` with the collapsible occurrence at `i` removed.
pub open spec fn reduce(s: Seq<char>, i: int) -> Seq<char> {
    s.subrange(0, i) + s.subrange(seg_end(s, i + 1) + 3, s.len() as int)
}

/// The leftmost position at or after `i` where a collapsible occurrence
/// starts.
pub open spec fn first_redex(s: Seq<char>, i: int) -> Option<int>
    decreases s.len() - i,
{
    if !(0 <= i && i < s.len()) {
        None
    } else if redex_at(s, i) {
        Some(i)
    } else {
        first_redex(s, i + 1)
    }
}

pub proof fn lemma_first_redex(s: Seq<char>, i: int)
    requires
        0 <= i,
    ensures
        first_redex(s, i) is None ==> forall|k: int| i <= k ==> !redex_at(s, k),
        first_redex(s, i) matches Some(m) ==> i <= m < s.len() && redex_at(s, m) && (forall|k: int|
            i <= k < m ==> !redex_at(s, k)),
    decreases s.len() - i,
{
    if 0 <= i && i < s.len() && !redex_at(s, i) {
        lemma_first_redex(s, i + 1);
    }
    if !(0 <= i && i < s.len()) {
        assert forall|k: int| i <= k implies !redex_at(s, k) by {
            if redex_at(s, k) {
                assert(k < s.len());
            }
        }
    }
}

/// Repeatedly removes the leftmost `/segment/..` occurrence until none is
/// left: textual collapsing, symlink-unaware by design.
pub open spec fn normalize_spec(s: Seq<char>) -> Seq<char>
    decreases s.len(),
    via normalize_spec_dec
{
    match first_redex(s, 0) {
        None => s,
        Some(i) => normalize_spec(reduce(s, i)),
    }
}

#[via_fn]
proof fn normalize_spec_dec(s: Seq<char>) {
    lemma_first_redex(s, 0);
    if let Some(i) = first_redex(s, 0) {
        lemma_seg_end(s, i + 1);
    }
}

/// Collapsing is idempotent: a normalized path is left unchanged by a
/// second normalization.
pub proof fn lemma_normalize_idempotent(s: Seq<char>)
    ensures
        normalize_spec(normalize_spec(s)) == normalize_spec(s),
    decreases s.len(),
{
    lemma_first_redex(s, 0);
    match first_redex(s, 0) {
        None => {},
        Some(i) => {
            lemma_seg_end(s, i + 1);
            lemma_normalize_idempotent(reduce(s, i));
        },
    }
}

/// Finds the leftmost collapsible occurrence, with the index of its inner
/// `/` (the end of the segment run).
fn find_first_redex(v: &Vec<char>) -> (r: Option<(usize, usize)>)
    ensures
        r is None ==> first_redex(v@, 0) is None,
        r matches Some((i, j)) ==> first_redex(v@, 0) == Some(i as int) && j as int == seg_end(
            v@,
            i as int + 1,
        ) && redex_at(v@, i as int),
{
    let n = v.len();
    let mut i: usize = 0;
    while i < n
        invariant
            n == v@.len(),
            i <= n,
            forall|k: int| 0 <= k < i ==> !redex_at(v@, k),
            first_redex(v@, 0) == first_redex(v@, i as int),
        decreases n - i,
    {
        if v[i] == '/' {
            let mut j: usize = i + 1;
            while j < n && seg_char_exec(v[j])
                invariant
                    n == v@.len(),
                    i + 1 <= j <= n,
                    seg_end(v@, i as int + 1) == seg_end(v@, j as int),
                decreases n - j,
            {
                j = j + 1;
            }
            proof {
                assert(seg_end(v@, j as int) == j as int);
            }
            if j - i >= 2 && n - j > 2 && v[j] == '/' && v[j + 1] == '.' && v[j + 2] == '.' {
                proof {
                    assert(redex_at(v@, i as int));
                    assert(first_redex(v@, i as int) == Some(i as int));
                }
                return Some((i, j));
            }
            proof {
                assert(!redex_at(v@, i as int));
            }
        } else {
            proof {
                assert(!redex_at(v@, i as int));
            }
        }
        i = i + 1;
    }
    proof {
        assert(first_redex(v@, i as int) is None);
    }
    None
}

/// `v` without the characters `i .. j + 3`.
fn remove_range(v: &Vec<char>, i: usize, j: usize) -> (r: Vec<char>)
    requires
        i <= j,
        j + 3 <= v.len(),
    ensures
        r@ == v@.subrange(0, i as int) + v@.subrange(j as int + 3, v@.len() as int),
{
    let mut r: Vec<char> = Vec::new();
    let mut k: usize = 0;
    while k < i
        invariant
            k <= i <= v.len(),
            r@ == v@.subrange(0, k as int),
        decreases i - k,
    {
        r.push(v[k]);
        k = k + 1;
        proof {
            assert(r@ =~= v@.subrange(0, k as int));
        }
    }
    let mut m: usize = j + 3;
    while m < v.len()
        invariant
            j + 3 <= m <= v.len(),
            r@ == v@.subrange(0, i as int) + v@.subrange(j as int + 3, m as int),
        decreases v.len() - m,
    {
        r.push(v[m]);
        m = m + 1;
        proof {
            assert(r@ =~= v@.subrange(0, i as int) + v@.subrange(j as int + 3, m as int));
        }
    }
    r
}

/// Collapses every `/segment/..` occurrence in `path`, leftmost first,
/// until none is left.
pub fn normalize_path(path: String) -> (r: String)
    ensures
        r@ == normalize_spec(path@),
{
    let ghost orig = path@;
    let mut v = str_to_chars(path.as_str());
    loop
        invariant
            orig == path@,
            normalize_spec(orig) == normalize_spec(v@),
        decreases v@.len(),
    {
        match find_first_redex(&v) {
            None => {
                proof {
                    assert(normalize_spec(v@) == v@);
                }
                return chars_to_string(&v);
            },
            Some((i, j)) => {
                proof {
                    lemma_seg_end(v@, i as int + 1);
                    assert(normalize_spec(v@) == normalize_spec(reduce(v@, i as int)));
                }
                let ghost before = v@;
                v = remove_range(&v, i, j);
                proof {
                    assert(v@ == reduce(before, i as int));
                    assert(v@.len() < before.len());
                }
            },
        }
    }
}

/// The textual parent of `p`: everything before the last `/`, the root
/// alone staying `/`; `None` where `p` is the root or holds no `/`.
/// This is a purely textual rule: on a path with a trailing or doubled
/// slash it keeps everything before that slash (`/a/b/` gives `/a/b`),
/// where `std::path::Path::parent` would drop the final component
/// (`/a`). Selected paths come from the tree without trailing slashes,
/// so the two agree on every input this engine is handed.
pub open spec fn parent_spec(p: Seq<char>) -> Option<Seq<char>> {
    if p.len() == 1 && p[0] == '/' {
        None
    } else {
        match last_slash(p, p.len() as int) {
            None => None,
            Some(k) => if k == 0 {
                Some(p.subrange(0, 1))
            } else {
                Some(p.subrange(0, k))
            },
        }
    }
}

/// The last position of `/` strictly before `i`, if any.
pub open spec fn last_slash(p: Seq<char>, i: int) -> Option<int>
    decreases i,
{
    if i <= 0 || i > p.len() {
        None
    } else if p[i - 1] == '/' {
        Some(i - 1)
    } else {
        last_slash(p, i - 1)
    }
}

/// The parent where there is one, the path itself otherwise.
pub open spec fn parent_or_self(p: Seq<char>) -> Seq<char> {
    match parent_spec(p) {
        Some(q) => q,
        None => p,
    }
}

/// The textual parent of `path`, falling back to `path` itself where no
/// parent exists (a filesystem root, or no `/` at all).
pub fn parent_or_self_exec(path: &String) -> (r: String)
    ensures
        r@ == parent_or_self(path@),
{
    let v = str_to_chars(path.as_str());
    if v.len() == 1 && v[0] == '/' {
        return path.clone();
    }
    let mut i: usize = v.len();
    while i > 0
        invariant
            i <= v.len(),
            v@ == path@,
            last_slash(path@, path@.len() as int) == last_slash(path@, i as int),
        decreases i,
    {
        if v[i - 1] == '/' {
            proof {
                assert(last_slash(path@, i as int) == Some(i - 1 as int));
            }
            if i - 1 == 0 {
                let mut r = String::new();
                r.push('/');
                proof {
                    assert(r@ =~= path@.subrange(0, 1));
                }
                return r;
            } else {
                let r = crate::strx::chars_range_to_string(&v, 0, i - 1);
                return r;
            }
        }
        i = i - 1;
    }
    proof {
        assert(last_slash(path@, 0) is None);
    }
    path.clone()
}

/// The text form of a path, shell-escaped when `for_shell` asks for it.
pub open spec fn path_to_string_spec(p: Seq<char>, for_shell: bool) -> Seq<char> {
    if for_shell {
        escape_spec(p)
    } else {
        p
    }
}

pub fn path_to_string(path: &String, for_shell: bool) -> (r: String)
    ensures
        r@ == path_to_string_spec(path@, for_shell),
{
    if for_shell {
        escape_for_shell(path)
    } else {
        path.clone()
    }
}

/// Which replacement-map entry anchors a relative input.
#[derive(Clone, Copy)]
pub enum PathSource {
    Directory,
    Parent,
}

impl PathSource {
    /// The name of the map entry this source reads.
    pub open spec fn key_spec(self) -> Seq<char> {
        match self {
            PathSource::Directory => "directory"@,
            PathSource::Parent => "parent"@,
        }
    }

    pub fn replacement_map_key(&self) -> (r: &'static str)
        ensures
            r@ == self.key_spec(),
    {
        match self {
            PathSource::Directory => "directory",
            PathSource::Parent => "parent",
        }
    }
}

/// A raw user path resolved against the map entry `key`: kept as is when
/// absolute, home-expanded when it starts with `~`, otherwise anchored at
/// the entry and collapsed.
pub open spec fn path_from_spec(
    key: Seq<char>,
    input: Seq<char>,
    map: Map<Seq<char>, Seq<char>>,
    home: Option<Seq<char>>,
) -> Seq<char> {
    if input.len() > 0 && input[0] == '/' {
        input
    } else if input.len() > 0 && input[0] == '~' && (input.len() == 1 || input[1] == '/') {
        match home {
            Some(h) => h + input.drop_first(),
            None => input,
        }
    } else {
        normalize_spec(map[key] + seq!['/'] + input)
    }
}

/// Resolves `input` with the home directory given by the caller.
pub fn path_from_with_home(
    source: PathSource,
    input: &String,
    map: &RepMap,
    home: &Option<String>,
) -> (r: String)
    requires
        map@.contains_key(source.key_spec()),
    ensures
        r@ == path_from_spec(source.key_spec(), input@, map@, home.deep_view()),
{
    let v = str_to_chars(input.as_str());
    if v.len() > 0 && v[0] == '/' {
        return input.clone();
    }
    if v.len() > 0 && v[0] == '~' && (v.len() == 1 || v[1] == '/') {
        match home {
            Some(h) => {
                let mut r = h.clone();
                let rest = input.as_str().substring_char(1, v.len());
                r.append(rest);
                proof {
                    assert(input@.drop_first() =~= input@.subrange(1, input@.len() as int));
                }
                return r;
            },
            None => {
                return input.clone();
            },
        }
    }
    let base = match map.get(source.replacement_map_key()) {
        Some(b) => b,
        None => unreached(),
    };
    let mut s = base.clone();
    s.append("/");
    s.append(input.as_str());
    proof {
        reveal_strlit("/");
        assert(s@ =~= map@[source.key_spec()] + seq!['/'] + input@);
    }
    normalize_path(s)
}

/// Resolves `input` against the current user's home directory, whatever
/// the environment names as it.
pub fn path_from(source: PathSource, input: &String, map: &RepMap) -> (r: String)
    requires
        map@.contains_key(source.key_spec()),
    ensures
        exists|h: Option<Seq<char>>| r@ == path_from_spec(source.key_spec(), input@, map@, h),
{
    let home = crate::home::lookup_home_dir();
    let r = path_from_with_home(source, input, map, &home);
    proof {
        assert(r@ == path_from_spec(source.key_spec(), input@, map@, home.deep_view()));
    }
    r
}

} // verus!
