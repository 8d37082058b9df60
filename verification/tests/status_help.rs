use verb_engine::help_content::{
    build_markdown, MD_HELP_FLAGS, MD_HELP_INTRO, MD_HELP_LAUNCH_ARGUMENTS,
};
use verb_engine::invocation::VerbInvocation;
use verb_engine::verb::{AppContext, Verb, VerbKey};
use verb_engine::SelectionType;

#[test]
fn invocation_parsing() {
    let inv = VerbInvocation::from_string("rn newname");
    assert_eq!(inv.name, "rn".to_string());
    assert_eq!(inv.args, Some("newname".to_string()));

    let inv = VerbInvocation::from_string("quit");
    assert_eq!(inv.name, "quit".to_string());
    assert_eq!(inv.args, None);

    let inv = VerbInvocation::from_string("mv  a b  ");
    assert_eq!(inv.name, "mv".to_string());
    assert_eq!(inv.args, Some("a b".to_string()));
}

#[test]
fn builtin_verbs_have_transition_executions() {
    let verb = Verb::create_builtin("help", None, Some("?".to_string()), "display the help");
    assert_eq!(verb.invocation.name, "help".to_string());
    assert_eq!(verb.invocation.args, None);
    assert!(verb.args_parser.is_none());
    assert_eq!(verb.execution, ":help".to_string());
    assert_eq!(verb.description, Some("display the help".to_string()));
    assert!(!verb.from_shell);
    assert!(verb.leave_broot);
    assert!(matches!(verb.selection_condition, SelectionType::Any));
}

#[test]
fn enter_key_restricts_selection_to_files() {
    let key = VerbKey {
        is_enter: true,
        desc: "enter".to_string(),
    };
    let verb = Verb::create_external(
        "open",
        Some(key),
        None,
        "xdg-open {file}".to_string(),
        None,
        false,
        true,
        false,
    )
    .ok()
    .unwrap();
    assert!(matches!(verb.selection_condition, SelectionType::File));
    assert_eq!(verb.key_desc, "enter".to_string());
}

#[test]
fn status_reports_match_errors() {
    let verb = Verb::create_builtin("quit", None, None, "quit the application");
    let inv = VerbInvocation::from_string("quit now");
    let (text, is_error) =
        verb.status_line_with_home(&"/a".to_string(), true, &inv, &None);
    assert!(is_error);
    assert_eq!(text, "quit doesn't take arguments".to_string());
}

#[test]
fn status_previews_descriptions_and_commands() {
    let verb = Verb::create_builtin("help", None, None, "display the help");
    let inv = VerbInvocation::from_string("help");
    let (text, is_error) =
        verb.status_line_with_home(&"/a".to_string(), true, &inv, &None);
    assert!(!is_error);
    assert_eq!(
        text,
        "Hit *enter* to **help**: display the help".to_string()
    );

    let verb = Verb::create_external(
        "edit",
        None,
        None,
        "nano {file}".to_string(),
        None,
        false,
        true,
        false,
    )
    .ok()
    .unwrap();
    let inv = VerbInvocation::from_string("edit");
    let (text, is_error) =
        verb.status_line_with_home(&"/a b/c".to_string(), false, &inv, &None);
    assert!(!is_error);
    assert_eq!(text, "Hit *enter* to **edit**: `nano '/a b/c'`".to_string());
}

#[test]
fn help_markdown_layout() {
    let con = AppContext {
        verbs: vec![
            Verb::create_builtin("help", None, Some("?".to_string()), "display the help"),
            Verb::create_external(
                "rn {new}",
                None,
                None,
                "mv {file} {parent}/{new}".to_string(),
                None,
                false,
                true,
                false,
            )
            .ok()
            .unwrap(),
        ],
        cmd_export_path: None,
        file_export_path: None,
        config_location: "/home/u/.config/broot/conf.toml".to_string(),
    };
    let md = build_markdown(&con);
    let mut expected = String::from(MD_HELP_INTRO);
    expected.push_str("|-:\n");
    expected.push_str("|**name**|**shortcut**|**description**\n");
    expected.push_str("|-:|:-:|:-\n");
    expected.push_str("|help|?|display the help\n");
    expected.push_str("|rn {new}||`mv {file} {parent}/{new}`\n");
    expected.push_str("|:-|-|:-\n");
    expected.push_str(" Verbs and skin can be configured in \"/home/u/.config/broot/conf.toml\".\n");
    expected.push_str(MD_HELP_LAUNCH_ARGUMENTS);
    expected.push_str(MD_HELP_FLAGS);
    assert_eq!(md, expected);
}
