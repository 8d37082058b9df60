use verb_engine::invocation::VerbInvocation;
use verb_engine::path::{normalize_path, path_from_with_home, path_to_string, PathSource};
use verb_engine::repmap::RepMap;
use verb_engine::shell::escape_for_shell;
use verb_engine::verb::{exec_outcome_result, AppContext, CmdPlan, CmdResult, ConfError, Verb};

fn check(before: &str, after: &str) {
    assert_eq!(normalize_path(before.to_string()), after.to_string());
}

#[test]
fn test_path_normalization() {
    check("/abc/test/../thing.png", "/abc/thing.png");
    check("/abc/def/../../thing.png", "/thing.png");
    check("/home/dys/test", "/home/dys/test");
    check("/home/dys/..", "/home");
    check("/home/dys/../", "/home/");
    check("/..", "/..");
    check("../test", "../test");
    check("/home/dys/../../../test", "/../test");
    check("/home/dys/dev/broot/../../../canop/test", "/home/canop/test");
}

#[test]
fn segments_may_hold_any_character_but_slash_and_dot() {
    check("/a\\b/../x", "/x");
    check("/a b/../x", "/x");
    check("/a.b/../x", "/a.b/../x");
}

#[test]
fn normalization_applied_twice_changes_nothing() {
    for p in [
        "/abc/test/../thing.png",
        "/home/dys/../../../test",
        "/..",
        "../test",
        "/a/b/../c/../../d",
    ] {
        let once = normalize_path(p.to_string());
        let twice = normalize_path(once.clone());
        assert_eq!(once, twice);
    }
}

fn external(invocation: &str, execution: &str) -> Verb {
    Verb::create_external(
        invocation,
        None,
        None,
        execution.to_string(),
        None,
        false,
        true,
        false,
    )
    .ok()
    .unwrap()
}

#[test]
fn token_mode_scenario() {
    let verb = external("cp", "cp {file} {directory}/backup");
    let toks = verb.exec_token_with_home(&"/a/b/c.txt".to_string(), false, &None, &None);
    assert_eq!(
        toks,
        vec![
            "cp".to_string(),
            "/a/b/c.txt".to_string(),
            "/a/b/backup".to_string()
        ]
    );
}

#[test]
fn token_mode_keeps_spaces_in_one_token() {
    let verb = external("e", "echo {file}");
    let toks = verb.exec_token_with_home(&"/tmp/my file".to_string(), false, &None, &None);
    assert_eq!(toks, vec!["echo".to_string(), "/tmp/my file".to_string()]);
}

#[test]
fn capture_scenario() {
    let verb = external("rn {new}", "mv {file} {parent}/{new}");
    let map = verb.replacement_map(
        &"/a/b/c.txt".to_string(),
        false,
        &Some("newname".to_string()),
        false,
    );
    assert_eq!(map.get("new").map(|s| s.as_str()), Some("newname"));
}

#[test]
fn unmatched_group_adds_no_entry() {
    let verb = external("rn {new}", "mv {file} {parent}/{new}");
    // empty arguments: the one-or-more group does not participate
    let map = verb.replacement_map(&"/a/b/c.txt".to_string(), false, &None, false);
    assert!(map.get("new").is_none());
}

#[test]
fn capture_used_in_expansion() {
    let verb = external("rn {new}", "mv {file} {parent}/{new}");
    let toks = verb.exec_token_with_home(
        &"/a/b/c.txt".to_string(),
        false,
        &Some("d.txt".to_string()),
        &None,
    );
    assert_eq!(
        toks,
        vec![
            "mv".to_string(),
            "/a/b/c.txt".to_string(),
            "/a/b/d.txt".to_string()
        ]
    );
}

#[test]
fn tilde_resolution() {
    let mut map = RepMap::new();
    map.insert("directory".to_string(), "/ctx".to_string());
    map.insert("parent".to_string(), "/ctx".to_string());
    let r = path_from_with_home(
        PathSource::Directory,
        &"~/docs".to_string(),
        &map,
        &Some("/home/alice".to_string()),
    );
    assert_eq!(r, "/home/alice/docs");
}

#[test]
fn tilde_without_home_stays_literal() {
    let mut map = RepMap::new();
    map.insert("directory".to_string(), "/ctx".to_string());
    map.insert("parent".to_string(), "/ctx".to_string());
    let r = path_from_with_home(PathSource::Directory, &"~/docs".to_string(), &map, &None);
    assert_eq!(r, "~/docs");
}

#[test]
fn absolute_input_is_kept() {
    let mut map = RepMap::new();
    map.insert("directory".to_string(), "/ctx".to_string());
    map.insert("parent".to_string(), "/ctx".to_string());
    let r = path_from_with_home(PathSource::Directory, &"/abs/x".to_string(), &map, &None);
    assert_eq!(r, "/abs/x");
}

#[test]
fn relative_input_is_anchored_and_collapsed() {
    let mut map = RepMap::new();
    map.insert("directory".to_string(), "/a/b".to_string());
    map.insert("parent".to_string(), "/a".to_string());
    let r = path_from_with_home(PathSource::Directory, &"../c".to_string(), &map, &None);
    assert_eq!(r, "/a/c");
    let r = path_from_with_home(PathSource::Parent, &"c".to_string(), &map, &None);
    assert_eq!(r, "/a/c");
}

#[test]
fn path_directive_resolves_against_directory() {
    let verb = external("mv {dest}", "mv {file} {dest:path-from-directory}");
    let toks = verb.exec_token_with_home(
        &"/a/b".to_string(),
        true,
        &Some("../c".to_string()),
        &None,
    );
    assert_eq!(
        toks,
        vec!["mv".to_string(), "/a/b".to_string(), "/a/c".to_string()]
    );
}

#[test]
fn unknown_directive_degrades_to_marker() {
    let verb = external("e", "echo {file:frobnicate}");
    let toks = verb.exec_token_with_home(&"/a".to_string(), false, &None, &None);
    // the pattern is split on whitespace before expansion, so the marker
    // stays one token
    assert_eq!(
        toks,
        vec![
            "echo".to_string(),
            "invalid format: \"frobnicate\"".to_string()
        ]
    );
}

#[test]
fn unmapped_placeholder_stays_literal() {
    let verb = external("e", "echo {zzz}");
    let toks = verb.exec_token_with_home(&"/a".to_string(), false, &None, &None);
    assert_eq!(toks, vec!["echo".to_string(), "{zzz}".to_string()]);
}

#[test]
fn nested_braces_scan_left_to_right() {
    let verb = external("e", "echo x{a{file}y");
    let toks = verb.exec_token_with_home(&"/p".to_string(), false, &None, &None);
    assert_eq!(toks, vec!["echo".to_string(), "x{a/py".to_string()]);
}

#[test]
fn malformed_placeholders_stay_literal() {
    let verb = external("e", "echo {:x} {a:} {file:extra:b}");
    let toks = verb.exec_token_with_home(&"/p".to_string(), false, &None, &None);
    assert_eq!(
        toks,
        vec![
            "echo".to_string(),
            "{:x}".to_string(),
            "{a:}".to_string(),
            "{file:extra:b}".to_string()
        ]
    );
}

#[test]
fn match_error_no_args_verb() {
    let verb = external("q", ":quit");
    let ok = VerbInvocation::from_string("q");
    assert_eq!(verb.match_error(&ok), None);
    let bad = VerbInvocation::from_string("q now");
    assert_eq!(
        verb.match_error(&bad),
        Some("q doesn't take arguments".to_string())
    );
}

#[test]
fn match_error_usage_string() {
    let verb = external("rn {new}", "mv {file} {parent}/{new}");
    let missing = VerbInvocation::from_string("rn");
    assert_eq!(verb.match_error(&missing), Some("rn {new}".to_string()));
    let good = VerbInvocation::from_string("rn name");
    assert_eq!(verb.match_error(&good), None);
}

#[test]
fn bad_declared_arguments_fail_at_creation() {
    let r = Verb::create_external(
        "bad ((",
        None,
        None,
        "echo hi".to_string(),
        None,
        false,
        true,
        false,
    );
    match r {
        Err(ConfError::InvalidVerbInvocation { invocation }) => {
            assert_eq!(invocation, "^(($".to_string());
        }
        Ok(_) => panic!("a non-compiling argument shape must be refused"),
    }
}

#[test]
fn shell_string_escapes_paths_not_arguments() {
    let verb = external("e {arg}", "echo {arg} {file}");
    let s = verb.shell_exec_string_with_home(
        &"/my dir/f".to_string(),
        false,
        &Some("a'b c".to_string()),
        &None,
    );
    assert_eq!(s, "echo a'b c '/my dir/f'".to_string());
}

#[test]
fn shell_escaping_rules() {
    assert_eq!(
        escape_for_shell(&"/plain/path-1_x.txt".to_string()),
        "/plain/path-1_x.txt".to_string()
    );
    assert_eq!(escape_for_shell(&"a b".to_string()), "'a b'".to_string());
    assert_eq!(escape_for_shell(&"a'b".to_string()), "'a'\\''b'".to_string());
}

#[test]
fn path_to_string_modes() {
    assert_eq!(
        path_to_string(&"/a b".to_string(), false),
        "/a b".to_string()
    );
    assert_eq!(
        path_to_string(&"/a b".to_string(), true),
        "'/a b'".to_string()
    );
}

#[test]
fn replacement_map_base_entries() {
    let verb = external("e", "echo {file}");
    let map = verb.replacement_map(&"/a/b/c.txt".to_string(), false, &None, false);
    assert_eq!(map.get("file").map(|s| s.as_str()), Some("/a/b/c.txt"));
    assert_eq!(map.get("parent").map(|s| s.as_str()), Some("/a/b"));
    assert_eq!(map.get("directory").map(|s| s.as_str()), Some("/a/b"));
    let map = verb.replacement_map(&"/a/b".to_string(), true, &None, false);
    assert_eq!(map.get("directory").map(|s| s.as_str()), Some("/a/b"));
}

#[test]
fn parent_falls_back_to_path_itself() {
    let verb = external("e", "echo {parent}");
    let map = verb.replacement_map(&"/".to_string(), true, &None, false);
    assert_eq!(map.get("parent").map(|s| s.as_str()), Some("/"));
}

#[test]
fn replacement_map_key_names() {
    assert_eq!(PathSource::Directory.replacement_map_key(), "directory");
    assert_eq!(PathSource::Parent.replacement_map_key(), "parent");
}

fn context(cmd: Option<&str>, file: Option<&str>) -> AppContext {
    AppContext {
        verbs: Vec::new(),
        cmd_export_path: cmd.map(|s| s.to_string()),
        file_export_path: file.map(|s| s.to_string()),
        config_location: "/home/u/.config/broot/conf.toml".to_string(),
    }
}

fn shell_verb(execution: &str) -> Verb {
    Verb::create_external(
        "sv",
        None,
        None,
        execution.to_string(),
        None,
        true,
        true,
        false,
    )
    .ok()
    .unwrap()
}

#[test]
fn dispatch_exports_command_line() {
    let verb = shell_verb("cd {directory}");
    let con = context(Some("/tmp/export"), None);
    let plan = verb.to_cmd_result_with_home(&"/a/b/c.txt".to_string(), false, &None, &con, &None);
    match plan {
        CmdPlan::AppendLine { export_path, line } => {
            assert_eq!(export_path, "/tmp/export".to_string());
            assert_eq!(line, "cd /a/b".to_string());
        }
        _ => panic!("a from-shell verb with a command export path must export"),
    }
}

#[test]
fn dispatch_legacy_export_writes_bare_path() {
    let verb = shell_verb("cd {directory}");
    let con = context(None, Some("/tmp/files"));
    let plan = verb.to_cmd_result_with_home(&"/a/b c/d".to_string(), false, &None, &con, &None);
    match plan {
        CmdPlan::AppendLine { export_path, line } => {
            assert_eq!(export_path, "/tmp/files".to_string());
            assert_eq!(line, "/a/b c/d".to_string());
        }
        _ => panic!("the legacy export must write the bare path"),
    }
}

#[test]
fn dispatch_without_export_path_reports_error() {
    let verb = shell_verb("cd {directory}");
    let con = context(None, None);
    let plan = verb.to_cmd_result_with_home(&"/a".to_string(), true, &None, &con, &None);
    match plan {
        CmdPlan::DisplayError { message } => {
            assert!(message.contains("br"));
        }
        _ => panic!("a from-shell verb without export paths must report an error"),
    }
}

#[test]
fn dispatch_launches_external_verbs() {
    let verb = external("e", "ls {directory}");
    let con = context(Some("/tmp/export"), None);
    let plan = verb.to_cmd_result_with_home(&"/a/b".to_string(), true, &None, &con, &None);
    match plan {
        CmdPlan::Launch {
            tokens,
            leave_broot,
        } => {
            assert_eq!(tokens, vec!["ls".to_string(), "/a/b".to_string()]);
            assert!(leave_broot);
        }
        _ => panic!("a non-shell verb must launch directly"),
    }
}

#[test]
fn launch_outcomes_become_results() {
    match exec_outcome_result(&None) {
        CmdResult::RefreshState { clear_cache } => assert!(clear_cache),
        _ => panic!("success must refresh with cache invalidation"),
    }
    match exec_outcome_result(&Some("boom".to_string())) {
        CmdResult::DisplayError { message } => assert_eq!(message, "boom".to_string()),
        _ => panic!("failure must surface the launcher's message"),
    }
}
