//! Verbs: configured commands, their argument validation, replacement
//! maps, execution building and dispatch decisions.
use vstd::prelude::*;
use vstd::string::*;
use crate::SelectionType;
use crate::invocation::{VerbInvocation, invocation_name_spec, invocation_args_spec, invocation_usage};
use crate::path::{path_to_string, path_to_string_spec, parent_or_self, parent_or_self_exec};
use crate::shell::escape_spec;
use crate::repmap::RepMap;
use crate::rex::{regex_pat, regex_valid, regex_matches, regex_captures, regex_new, regex_is_match, regex_named_captures};
use crate::template::{token_expand_spec, shell_expand_spec, expand_tokens, expand_shell_string, args_pattern_spec, build_args_pattern};
use crate::home::lookup_home_dir;

verus! {

/// A trigger key, reduced to what this engine reads of it: whether it is
/// the enter key, and its display text.
pub struct VerbKey {
    pub is_enter: bool,
    pub desc: String,
}

/// A configuration fault: a declared invocation whose derived
/// argument-shape pattern does not compile.
pub enum ConfError {
    InvalidVerbInvocation { invocation: String },
}

/// A configured command: how it is invoked, how its arguments are
/// validated, and how it executes.
pub struct Verb {
    pub invocation: VerbInvocation,
    pub key: Option<VerbKey>,
    pub key_desc: String,
    pub args_parser: Option<regex::Regex>,
    pub shortcut: Option<String>,
    pub execution: String,
    pub description: Option<String>,
    pub from_shell: bool,
    pub leave_broot: bool,
    pub confirm: bool,
    pub selection_condition: SelectionType,
}

pub open spec fn key_eq(a: Option<VerbKey>, b: Option<VerbKey>) -> bool {
    match (a, b) {
        (Option::None, Option::None) => true,
        (Option::Some(x), Option::Some(y)) => x.is_enter == y.is_enter && x.desc@ == y.desc@,
        _ => false,
    }
}

pub open spec fn key_desc_spec(key: Option<VerbKey>) -> Seq<char> {
    match key {
        Option::Some(k) => k.desc@,
        Option::None => Seq::empty(),
    }
}

/// A verb triggered by enter applies to files only, so that entering a
/// directory is not hijacked by a configured command.
pub open spec fn selection_cond_spec(key: Option<VerbKey>) -> SelectionType {
    match key {
        Option::Some(k) => if k.is_enter {
            SelectionType::File
        } else {
            SelectionType::Any
        },
        Option::None => SelectionType::Any,
    }
}

/// The three path-derived entries every replacement map starts from.
pub open spec fn base_map_spec(file: Seq<char>, is_dir: bool, for_shell: bool) -> Map<
    Seq<char>,
    Seq<char>,
> {
    Map::empty().insert("file"@, path_to_string_spec(file, for_shell)).insert(
        "parent"@,
        path_to_string_spec(parent_or_self(file), for_shell),
    ).insert(
        "directory"@,
        if is_dir {
            path_to_string_spec(file, for_shell)
        } else {
            path_to_string_spec(parent_or_self(file), for_shell)
        },
    )
}

/// The map after the captured entries are added, in order.
pub open spec fn with_captures(
    m: Map<Seq<char>, Seq<char>>,
    caps: Seq<(Seq<char>, Seq<char>)>,
) -> Map<Seq<char>, Seq<char>>
    decreases caps.len(),
{
    if caps.len() == 0 {
        m
    } else {
        with_captures(m, caps.drop_last()).insert(caps.last().0, caps.last().1)
    }
}

/// Whether some capture carries the name `k`.
pub open spec fn has_cap_name(caps: Seq<(Seq<char>, Seq<char>)>, k: Seq<char>) -> bool {
    exists|i: int| 0 <= i < caps.len() && caps[i].0 == k
}

pub proof fn lemma_with_captures_dom(m: Map<Seq<char>, Seq<char>>, caps: Seq<(Seq<char>, Seq<char>)>)
    ensures
        forall|k: Seq<char>|
            #[trigger] with_captures(m, caps).contains_key(k) <==> (m.contains_key(k)
                || has_cap_name(caps, k)),
    decreases caps.len(),
{
    if caps.len() > 0 {
        lemma_with_captures_dom(m, caps.drop_last());
        assert forall|k: Seq<char>|
            #[trigger] with_captures(m, caps).contains_key(k) <==> (m.contains_key(k)
                || has_cap_name(caps, k)) by {
            assert(caps[caps.len() - 1] == caps.last());
            if k == caps.last().0 {
                assert(with_captures(m, caps).contains_key(k));
                assert(caps[caps.len() - 1].0 == k);
                assert(has_cap_name(caps, k));
            } else {
                assert(with_captures(m, caps).contains_key(k) == with_captures(
                    m,
                    caps.drop_last(),
                ).contains_key(k));
                if has_cap_name(caps.drop_last(), k) {
                    let i = choose|i: int|
                        0 <= i < caps.drop_last().len() && caps.drop_last()[i].0 == k;
                    assert(caps[i].0 == k);
                    assert(has_cap_name(caps, k));
                }
                if has_cap_name(caps, k) {
                    let i = choose|i: int| 0 <= i < caps.len() && caps[i].0 == k;
                    assert(i != caps.len() - 1);
                    assert(caps.drop_last()[i].0 == k);
                    assert(has_cap_name(caps.drop_last(), k));
                }
            }
        }
    }
}

pub proof fn lemma_with_captures_frame(
    m: Map<Seq<char>, Seq<char>>,
    caps: Seq<(Seq<char>, Seq<char>)>,
    k: Seq<char>,
)
    requires
        !has_cap_name(caps, k),
    ensures
        with_captures(m, caps).contains_key(k) == m.contains_key(k),
        m.contains_key(k) ==> with_captures(m, caps)[k] == m[k],
    decreases caps.len(),
{
    if caps.len() > 0 {
        assert(caps.last().0 != k) by {
            assert(caps[caps.len() - 1] == caps.last());
        }
        assert(!has_cap_name(caps.drop_last(), k)) by {
            if has_cap_name(caps.drop_last(), k) {
                let i = choose|i: int|
                    0 <= i < caps.drop_last().len() && caps.drop_last()[i].0 == k;
                assert(caps[i].0 == k);
            }
        }
        lemma_with_captures_frame(m, caps.drop_last(), k);
    }
}

pub proof fn lemma_with_captures_value(
    m: Map<Seq<char>, Seq<char>>,
    caps: Seq<(Seq<char>, Seq<char>)>,
    i: int,
)
    requires
        0 <= i < caps.len(),
        forall|a: int, b: int| 0 <= a < b < caps.len() ==> caps[a].0 != caps[b].0,
    ensures
        with_captures(m, caps).contains_key(caps[i].0),
        with_captures(m, caps)[caps[i].0] == caps[i].1,
    decreases caps.len(),
{
    if i == caps.len() - 1 {
        assert(caps[i] == caps.last());
    } else {
        assert(caps.drop_last()[i] == caps[i]);
        assert(forall|a: int, b: int|
            0 <= a < b < caps.drop_last().len() ==> caps.drop_last()[a].0
                != caps.drop_last()[b].0) by {
            assert(forall|a: int|
                0 <= a < caps.drop_last().len() ==> caps.drop_last()[a] == caps[a]);
        }
        lemma_with_captures_value(m, caps.drop_last(), i);
        assert(caps[i].0 != caps.last().0) by {
            assert(caps.last() == caps[caps.len() - 1]);
        }
    }
}

/// Every named capture that participates in a match contributes exactly
/// one entry to the replacement map, under its own name and with its own
/// text; a name with no participating capture adds nothing at all.
pub proof fn lemma_captures_map(m: Map<Seq<char>, Seq<char>>, caps: Seq<(Seq<char>, Seq<char>)>)
    requires
        forall|a: int, b: int| 0 <= a < b < caps.len() ==> caps[a].0 != caps[b].0,
    ensures
        forall|i: int|
            0 <= i < caps.len() ==> with_captures(m, caps).contains_key(#[trigger] caps[i].0)
                && with_captures(m, caps)[caps[i].0] == caps[i].1,
        forall|k: Seq<char>|
            #[trigger] with_captures(m, caps).contains_key(k) <==> (m.contains_key(k)
                || has_cap_name(caps, k)),
{
    assert forall|i: int|
        0 <= i < caps.len() implies with_captures(m, caps).contains_key(#[trigger] caps[i].0)
        && with_captures(m, caps)[caps[i].0] == caps[i].1 by {
        lemma_with_captures_value(m, caps, i);
    }
    lemma_with_captures_dom(m, caps);
}

/// With shell escaping requested, the three path entries hold the
/// shell-escaped path texts while every captured argument is entered
/// raw. A capture declared under one of the three path names would
/// shadow its entry, so those names are left out here.
pub proof fn lemma_shell_mode_escaping(
    file: Seq<char>,
    is_dir: bool,
    caps: Seq<(Seq<char>, Seq<char>)>,
)
    requires
        forall|a: int, b: int| 0 <= a < b < caps.len() ==> caps[a].0 != caps[b].0,
        !has_cap_name(caps, "file"@),
        !has_cap_name(caps, "parent"@),
        !has_cap_name(caps, "directory"@),
    ensures
        with_captures(base_map_spec(file, is_dir, true), caps)["file"@] == escape_spec(file),
        with_captures(base_map_spec(file, is_dir, true), caps)["parent"@] == escape_spec(
            parent_or_self(file),
        ),
        with_captures(base_map_spec(file, is_dir, true), caps)["directory"@] == escape_spec(
            if is_dir {
                file
            } else {
                parent_or_self(file)
            },
        ),
        forall|i: int|
            0 <= i < caps.len() ==> with_captures(base_map_spec(file, is_dir, true), caps)[(
            #[trigger] caps[i].0)] == caps[i].1,
{
    let base = base_map_spec(file, is_dir, true);
    reveal_strlit("file");
    reveal_strlit("parent");
    reveal_strlit("directory");
    assert("file"@.len() == 4 && "parent"@.len() == 6 && "directory"@.len() == 9);
    assert("file"@ != "parent"@ && "file"@ != "directory"@ && "parent"@ != "directory"@);
    lemma_with_captures_frame(base, caps, "file"@);
    lemma_with_captures_frame(base, caps, "parent"@);
    lemma_with_captures_frame(base, caps, "directory"@);
    assert forall|i: int|
        0 <= i < caps.len() implies with_captures(base, caps)[(#[trigger] caps[i].0)]
        == caps[i].1 by {
        lemma_with_captures_value(base, caps, i);
    }
}

pub open spec fn args_or_empty(args: Option<Seq<char>>) -> Seq<char> {
    match args {
        Option::Some(a) => a,
        Option::None => Seq::empty(),
    }
}

/// The replacement map an execution attempt works with: the three path
/// entries, then one entry per named capture that participates in the
/// match of the argument text.
pub open spec fn replacement_map_spec(
    v: Verb,
    file: Seq<char>,
    is_dir: bool,
    args: Option<Seq<char>>,
    for_shell: bool,
) -> Map<Seq<char>, Seq<char>> {
    let base = base_map_spec(file, is_dir, for_shell);
    match v.args_parser {
        Option::None => base,
        Option::Some(re) => if regex_matches(regex_pat(re), args_or_empty(args)) {
            with_captures(base, regex_captures(regex_pat(re), args_or_empty(args)))
        } else {
            base
        },
    }
}

/// `None` when the arguments fit the declared shape; the display-ready
/// error otherwise.
pub open spec fn match_error_spec(v: Verb, inv: VerbInvocation) -> Option<Seq<char>> {
    match (inv.args, v.args_parser) {
        (Option::None, Option::None) => Option::None,
        (Option::None, Option::Some(re)) => if regex_matches(regex_pat(re), Seq::empty()) {
            Option::None
        } else {
            Option::Some(invocation_usage(inv.name@, v.invocation.args.deep_view()))
        },
        (Option::Some(s), Option::Some(re)) => if regex_matches(regex_pat(re), s@) {
            Option::None
        } else {
            Option::Some(invocation_usage(inv.name@, v.invocation.args.deep_view()))
        },
        (Option::Some(_), Option::None) => Option::Some(inv.name@ + " doesn't take arguments"@),
    }
}

/// A verb that declares no arguments accepts an invocation exactly when
/// the invocation carries no argument text.
pub proof fn lemma_no_args_verb(v: Verb, inv: VerbInvocation)
    requires
        v.args_parser is None,
    ensures
        match_error_spec(v, inv) is None <==> inv.args is None,
{
}

/// The token list handed to the process launcher.
pub open spec fn exec_token_spec(
    v: Verb,
    file: Seq<char>,
    is_dir: bool,
    args: Option<Seq<char>>,
    home: Option<Seq<char>>,
) -> Seq<Seq<char>> {
    token_expand_spec(v.execution@, replacement_map_spec(v, file, is_dir, args, false), home)
}

/// The single shell-escaped command line.
pub open spec fn shell_exec_string_spec(
    v: Verb,
    file: Seq<char>,
    is_dir: bool,
    args: Option<Seq<char>>,
    home: Option<Seq<char>>,
) -> Seq<char> {
    shell_expand_spec(v.execution@, replacement_map_spec(v, file, is_dir, args, true), home)
}

impl Verb {
    /// Builds a verb with the standard configurable behaviour; "external"
    /// means not built-in. Fails exactly where the declared arguments
    /// yield a pattern the regex engine refuses.
    pub fn create_external(
        invocation_str: &str,
        key: Option<VerbKey>,
        shortcut: Option<String>,
        execution: String,
        description: Option<String>,
        from_shell: bool,
        leave_broot: bool,
        confirm: bool,
    ) -> (r: Result<Verb, ConfError>)
        ensures
            (match invocation_args_spec(invocation_str@) {
                Option::None => r is Ok,
                Option::Some(a) => r is Ok <==> regex_valid(args_pattern_spec(a)),
            }),
            r matches Ok(v) ==> ({
                &&& v.invocation.name@ == invocation_name_spec(invocation_str@)
                &&& v.invocation.args.deep_view() == invocation_args_spec(invocation_str@)
                &&& (match (invocation_args_spec(invocation_str@), v.args_parser) {
                    (Option::None, Option::None) => true,
                    (Option::Some(a), Option::Some(re)) => regex_pat(re) == args_pattern_spec(a),
                    _ => false,
                })
                &&& key_eq(v.key, key)
                &&& v.key_desc@ == key_desc_spec(key)
                &&& v.selection_condition == selection_cond_spec(key)
                &&& v.shortcut.deep_view() == shortcut.deep_view()
                &&& v.execution@ == execution@
                &&& v.description.deep_view() == description.deep_view()
                &&& v.from_shell == from_shell
                &&& v.leave_broot == leave_broot
                &&& v.confirm == confirm
            }),
            r matches Err(e) ==> ({
                &&& e matches ConfError::InvalidVerbInvocation { invocation: p }
                &&& invocation_args_spec(invocation_str@) matches Some(a) && p@
                    == args_pattern_spec(a)
            }),
    {
        let invocation = VerbInvocation::from_string(invocation_str);
        let args_parser = match &invocation.args {
            Some(a) => {
                let pat = build_args_pattern(a);
                match regex_new(&pat) {
                    Some(re) => Some(re),
                    None => {
                        return Err(ConfError::InvalidVerbInvocation { invocation: pat });
                    },
                }
            },
            None => None,
        };
        let selection_condition = match &key {
            Some(k) => if k.is_enter {
                SelectionType::File
            } else {
                SelectionType::Any
            },
            None => SelectionType::Any,
        };
        let key_desc = match &key {
            Some(k) => k.desc.clone(),
            None => String::new(),
        };
        Ok(
            Verb {
                invocation,
                key,
                key_desc,
                args_parser,
                shortcut,
                execution,
                description,
                from_shell,
                leave_broot,
                confirm,
                selection_condition,
            },
        )
    }

    /// Builds a built-in verb: one whose execution is an application
    /// state transition named `:name`.
    pub fn create_builtin(
        name: &str,
        key: Option<VerbKey>,
        shortcut: Option<String>,
        description: &str,
    ) -> (r: Verb)
        ensures
            r.invocation.name@ == name@,
            r.invocation.args is None,
            r.args_parser is None,
            key_eq(r.key, key),
            r.key_desc@ == key_desc_spec(key),
            r.shortcut.deep_view() == shortcut.deep_view(),
            r.execution@ == seq![':'] + name@,
            r.description matches Some(d) && d@ == description@,
            !r.from_shell,
            r.leave_broot,
            !r.confirm,
            r.selection_condition == SelectionType::Any,
    {
        let key_desc = match &key {
            Some(k) => k.desc.clone(),
            None => String::new(),
        };
        let mut execution = String::from_str(":");
        execution.append(name);
        proof {
            reveal_strlit(":");
            assert(execution@ =~= seq![':'] + name@);
        }
        Verb {
            invocation: VerbInvocation { name: String::from_str(name), args: None },
            key,
            key_desc,
            args_parser: None,
            shortcut,
            execution,
            description: Some(String::from_str(description)),
            from_shell: false,
            leave_broot: true,  // ignored for built-ins
            confirm: false,  // reserved, unused
            selection_condition: SelectionType::Any,
        }
    }

    /// Checks a candidate invocation's arguments against the declared
    /// shape; `None` when there is no problem, the error to display
    /// otherwise.
    pub fn match_error(&self, invocation: &VerbInvocation) -> (r: Option<String>)
        ensures
            r.deep_view() == match_error_spec(*self, *invocation),
    {
        match (&invocation.args, &self.args_parser) {
            (None, None) => None,
            (None, Some(re)) => {
                let empty = String::new();
                if regex_is_match(re, &empty) {
                    None
                } else {
                    Some(self.invocation.to_string_for_name(&invocation.name))
                }
            },
            (Some(s), Some(re)) => {
                if regex_is_match(re, s) {
                    None
                } else {
                    Some(self.invocation.to_string_for_name(&invocation.name))
                }
            },
            (Some(_), None) => {
                let mut m = invocation.name.clone();
                m.append(" doesn't take arguments");
                Some(m)
            },
        }
    }

    /// Builds the map used to replace the braced parts of the execution
    /// pattern: the three path entries, then one entry per named capture
    /// participating in the match of the argument text.
    pub fn replacement_map(
        &self,
        file: &String,
        file_is_dir: bool,
        args: &Option<String>,
        for_shell: bool,
    ) -> (r: RepMap)
        ensures
            r@ == replacement_map_spec(*self, file@, file_is_dir, args.deep_view(), for_shell),
            r@.contains_key("file"@),
            r@.contains_key("parent"@),
            r@.contains_key("directory"@),
    {
        let mut map = RepMap::new();
        let file_str = path_to_string(file, for_shell);
        let parent = parent_or_self_exec(file);
        let parent_str = path_to_string(&parent, for_shell);
        map.insert(String::from_str("file"), file_str.clone());
        map.insert(String::from_str("parent"), parent_str.clone());
        let dir_str = if file_is_dir {
            file_str
        } else {
            parent_str
        };
        map.insert(String::from_str("directory"), dir_str);
        let ghost base = base_map_spec(file@, file_is_dir, for_shell);
        proof {
            assert(map@ == base);
        }
        let default_args = String::new();
        let a: &String = match args {
            Some(s) => s,
            None => &default_args,
        };
        proof {
            assert(a@ == args_or_empty(args.deep_view()));
        }
        match &self.args_parser {
            Some(re) => {
                match regex_named_captures(re, a) {
                    Some(caps) => {
                        let ghost cseq = regex_captures(regex_pat(*re), a@);
                        proof {
                            assert(caps.deep_view() == cseq);
                        }
                        let mut i: usize = 0;
                        while i < caps.len()
                            invariant
                                i <= caps.len(),
                                caps.deep_view() == cseq,
                                map@ == with_captures(base, cseq.subrange(0, i as int)),
                            decreases caps.len() - i,
                        {
                            proof {
                                assert(caps[i as int].deep_view() == cseq[i as int]);
                            }
                            let name = caps[i].0.clone();
                            let value = caps[i].1.clone();
                            map.insert(name, value);
                            proof {
                                assert(cseq.subrange(0, i as int + 1).drop_last() =~= cseq.subrange(
                                    0,
                                    i as int,
                                ));
                                assert(cseq.subrange(0, i as int + 1).last() == cseq[i as int]);
                            }
                            i = i + 1;
                        }
                        proof {
                            assert(cseq.subrange(0, caps@.len() as int) =~= cseq);
                            lemma_with_captures_dom(base, cseq);
                        }
                    },
                    None => {
                    },
                }
            },
            None => {
            },
        }
        map
    }

    /// The token list that launches the external program directly; each
    /// whitespace-token of the pattern expands to exactly one token.
    pub fn exec_token_with_home(
        &self,
        file: &String,
        file_is_dir: bool,
        args: &Option<String>,
        home: &Option<String>,
    ) -> (r: Vec<String>)
        ensures
            r.deep_view() == exec_token_spec(
                *self,
                file@,
                file_is_dir,
                args.deep_view(),
                home.deep_view(),
            ),
    {
        let map = self.replacement_map(file, file_is_dir, args, false);
        expand_tokens(&self.execution, &map, home)
    }

    /// As `exec_token_with_home`, with the home directory looked up from
    /// the environment, whatever it names as it.
    pub fn exec_token(&self, file: &String, file_is_dir: bool, args: &Option<String>) -> (r: Vec<
        String,
    >)
        ensures
            exists|h: Option<Seq<char>>|
                r.deep_view() == exec_token_spec(*self, file@, file_is_dir, args.deep_view(), h),
    {
        let home = lookup_home_dir();
        let r = self.exec_token_with_home(file, file_is_dir, args, &home);
        proof {
            assert(r.deep_view() == exec_token_spec(
                *self,
                file@,
                file_is_dir,
                args.deep_view(),
                home.deep_view(),
            ));
        }
        r
    }

    /// The single shell-escaped command line, for export to a parent
    /// shell.
    pub fn shell_exec_string_with_home(
        &self,
        file: &String,
        file_is_dir: bool,
        args: &Option<String>,
        home: &Option<String>,
    ) -> (r: String)
        ensures
            r@ == shell_exec_string_spec(
                *self,
                file@,
                file_is_dir,
                args.deep_view(),
                home.deep_view(),
            ),
    {
        let map = self.replacement_map(file, file_is_dir, args, true);
        expand_shell_string(&self.execution, &map, home)
    }

    /// As `shell_exec_string_with_home`, with the home directory looked
    /// up from the environment.
    pub fn shell_exec_string(&self, file: &String, file_is_dir: bool, args: &Option<String>) -> (r:
        String)
        ensures
            exists|h: Option<Seq<char>>|
                r@ == shell_exec_string_spec(*self, file@, file_is_dir, args.deep_view(), h),
    {
        let home = lookup_home_dir();
        let r = self.shell_exec_string_with_home(file, file_is_dir, args, &home);
        proof {
            assert(r@ == shell_exec_string_spec(
                *self,
                file@,
                file_is_dir,
                args.deep_view(),
                home.deep_view(),
            ));
        }
        r
    }

    /// The status-line text for this verb and invocation, with a flag
    /// saying whether it reports an error.
    pub fn status_line_with_home(
        &self,
        file: &String,
        file_is_dir: bool,
        invocation: &VerbInvocation,
        home: &Option<String>,
    ) -> (r: (String, bool))
        ensures
            r.0@ == status_spec(*self, file@, file_is_dir, *invocation, home.deep_view()).0,
            r.1 == status_spec(*self, file@, file_is_dir, *invocation, home.deep_view()).1,
    {
        match self.match_error(invocation) {
            Some(e) => (e, true),
            None => {
                match &self.description {
                    Some(d) => {
                        let mut m = String::from_str("Hit *enter* to **");
                        m.append(self.invocation.name.as_str());
                        m.append("**: ");
                        m.append(d.as_str());
                        proof {
                            assert(m@ =~= "Hit *enter* to **"@ + self.invocation.name@ + "**: "@
                                + d@);
                        }
                        (m, false)
                    },
                    None => {
                        let cmd = self.shell_exec_string_with_home(
                            file,
                            file_is_dir,
                            &invocation.args,
                            home,
                        );
                        let mut m = String::from_str("Hit *enter* to **");
                        m.append(self.invocation.name.as_str());
                        m.append("**: `");
                        m.append(cmd.as_str());
                        m.append("`");
                        proof {
                            assert(m@ =~= "Hit *enter* to **"@ + self.invocation.name@ + "**: `"@
                                + cmd@ + "`"@);
                        }
                        (m, false)
                    },
                }
            },
        }
    }

    /// As `status_line_with_home`, with the home directory looked up from
    /// the environment.
    pub fn write_status(
        &self,
        file: &String,
        file_is_dir: bool,
        invocation: &VerbInvocation,
    ) -> (r: (String, bool))
        ensures
            exists|h: Option<Seq<char>>|
                r.0@ == status_spec(*self, file@, file_is_dir, *invocation, h).0 && r.1
                    == status_spec(*self, file@, file_is_dir, *invocation, h).1,
    {
        let home = lookup_home_dir();
        let r = self.status_line_with_home(file, file_is_dir, invocation, &home);
        proof {
            assert(r.0@ == status_spec(
                *self,
                file@,
                file_is_dir,
                *invocation,
                home.deep_view(),
            ).0);
        }
        r
    }

    /// Decides what a matched verb with an execution pattern does: an
    /// export-file line followed by quitting, a user-facing error, or a
    /// direct launch.
    pub fn to_cmd_result_with_home(
        &self,
        file: &String,
        file_is_dir: bool,
        args: &Option<String>,
        con: &AppContext,
        home: &Option<String>,
    ) -> (r: CmdPlan)
        ensures
            cmd_plan_ok(
                *self,
                file@,
                file_is_dir,
                args.deep_view(),
                con.cmd_export_path.deep_view(),
                con.file_export_path.deep_view(),
                home.deep_view(),
                r,
            ),
    {
        if self.from_shell {
            match &con.cmd_export_path {
                Some(p) => CmdPlan::AppendLine {
                    export_path: p.clone(),
                    line: self.shell_exec_string_with_home(file, file_is_dir, args, home),
                },
                None => {
                    match &con.file_export_path {
                        Some(p) => CmdPlan::AppendLine {
                            export_path: p.clone(),
                            line: file.clone(),
                        },
                        None => CmdPlan::DisplayError { message: String::from_str(BR_NEEDED) },
                    }
                },
            }
        } else {
            CmdPlan::Launch {
                tokens: self.exec_token_with_home(file, file_is_dir, args, home),
                leave_broot: self.leave_broot,
            }
        }
    }

    /// As `to_cmd_result_with_home`, with the home directory looked up
    /// from the environment.
    pub fn to_cmd_result(
        &self,
        file: &String,
        file_is_dir: bool,
        args: &Option<String>,
        con: &AppContext,
    ) -> (r: CmdPlan)
        ensures
            exists|h: Option<Seq<char>>|
                cmd_plan_ok(
                    *self,
                    file@,
                    file_is_dir,
                    args.deep_view(),
                    con.cmd_export_path.deep_view(),
                    con.file_export_path.deep_view(),
                    h,
                    r,
                ),
    {
        let home = lookup_home_dir();
        let r = self.to_cmd_result_with_home(file, file_is_dir, args, con, &home);
        proof {
            assert(cmd_plan_ok(
                *self,
                file@,
                file_is_dir,
                args.deep_view(),
                con.cmd_export_path.deep_view(),
                con.file_export_path.deep_view(),
                home.deep_view(),
                r,
            ));
        }
        r
    }
}

/// The status line: the validation error where there is one, else a
/// preview of what the trigger key will do.
pub open spec fn status_spec(
    v: Verb,
    file: Seq<char>,
    is_dir: bool,
    inv: VerbInvocation,
    home: Option<Seq<char>>,
) -> (Seq<char>, bool) {
    match match_error_spec(v, inv) {
        Option::Some(e) => (e, true),
        Option::None => match v.description {
            Option::Some(d) => ("Hit *enter* to **"@ + v.invocation.name@ + "**: "@ + d@, false),
            Option::None => (
                "Hit *enter* to **"@ + v.invocation.name@ + "**: `"@ + shell_exec_string_spec(
                    v,
                    file,
                    is_dir,
                    inv.args.deep_view(),
                    home,
                ) + "`"@,
                false,
            ),
        },
    }
}

/// What the verb engine reads of the application's context: the verb
/// registry, the export files of the launch, and where the configuration
/// lives.
pub struct AppContext {
    pub verbs: Vec<Verb>,
    pub cmd_export_path: Option<String>,
    pub file_export_path: Option<String>,
    pub config_location: String,
}

/// What a matched verb asks the application to do.
pub enum CmdPlan {
    /// Append `line` to the file at `export_path`, then quit: control
    /// goes back to the invoking shell wrapper.
    AppendLine { export_path: String, line: String },
    /// Show the message; the application stays as it is.
    DisplayError { message: String },
    /// Launch the token list; with `leave_broot` the launch outcome is
    /// the application's final outcome.
    Launch { tokens: Vec<String>, leave_broot: bool },
}

/// The state-change outcome reported back after a plan ran.
pub enum CmdResult {
    Quit,
    RefreshState { clear_cache: bool },
    DisplayError { message: String },
}

pub const BR_NEEDED: &'static str =
    "this verb needs broot to be launched as `br`. Try `broot --install` if necessary.";

/// What the dispatch decision owes the caller for every combination of
/// verb flags and launch context.
pub open spec fn cmd_plan_ok(
    v: Verb,
    file: Seq<char>,
    is_dir: bool,
    args: Option<Seq<char>>,
    cmd_exp: Option<Seq<char>>,
    file_exp: Option<Seq<char>>,
    home: Option<Seq<char>>,
    r: CmdPlan,
) -> bool {
    if v.from_shell {
        match cmd_exp {
            Option::Some(p) => r matches CmdPlan::AppendLine { export_path, line } && export_path@
                == p && line@ == shell_exec_string_spec(v, file, is_dir, args, home),
            Option::None => match file_exp {
                Option::Some(p) => r matches CmdPlan::AppendLine { export_path, line }
                    && export_path@ == p && line@ == file,
                Option::None => r matches CmdPlan::DisplayError { message } && message@
                    == BR_NEEDED@,
            },
        }
    } else {
        r matches CmdPlan::Launch { tokens, leave_broot } && tokens.deep_view()
            == exec_token_spec(v, file, is_dir, args, home) && leave_broot == v.leave_broot
    }
}

/// Turns a synchronous launch outcome into the application result: a
/// refresh with cache invalidation on success, the launcher's message on
/// failure.
pub fn exec_outcome_result(outcome: &Option<String>) -> (r: CmdResult)
    ensures
        outcome is None ==> (r matches CmdResult::RefreshState { clear_cache } && clear_cache),
        outcome matches Some(m) ==> (r matches CmdResult::DisplayError { message } && message@
            == m@),
{
    match outcome {
        None => CmdResult::RefreshState { clear_cache: true },
        Some(m) => CmdResult::DisplayError { message: m.clone() },
    }
}

/// How application states run a matched verb; implemented by the states
/// outside this library.
pub trait VerbExecutor {
    fn execute_verb(
        &mut self,
        verb: &Verb,
        invocation: &VerbInvocation,
        con: &AppContext,
    ) -> Result<CmdResult, String>;
}

} // verus!
