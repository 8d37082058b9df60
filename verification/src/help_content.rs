//! Assembly of the markdown shown on the help page.
use vstd::prelude::*;
use vstd::string::*;
use crate::verb::{Verb, AppContext};
use crate::invocation::invocation_usage;

verus! {

pub const MD_HELP_INTRO: &'static str = "\n# Help\n\n**broot** lets you explore directory trees and launch commands.\nSee https://dystroy.org/broot for a complete guide.\n\n**broot** is best used when launched as `br`.\n`<esc>` gets you back to the previous state.\nTyping some letters searches the tree and selects the most relevant file.\nTo use a regular expression, use a slash eg `/j(ava|s)$`.\n\nTo execute a verb, type a space or `:` then start of its name or shortcut.\n\n## Verbs\n\n";

pub const MD_HELP_LAUNCH_ARGUMENTS: &'static str = "\n## Launch Arguments\n\nSome options can be set on launch:\n* `-h` or `--hidden` : show hidden files\n* `-f` or `--only-folders` : only show folders\n* `-s` or `--sizes` : display sizes\n (for the complete list, run `broot --help`)\n";

pub const MD_HELP_FLAGS: &'static str = "\n## Flags\n\nFlags are displayed at bottom right:\n* `h:y` or `h:n` : whether hidden files are shown\n* `gi:a`, `gi:y`, `gi:n` : whether gitignore is on `auto`, `yes` or `no`\n When gitignore is auto, .gitignore rules are respected if the displayed root is a git repository or in one.\n\n";

/// One row of the verbs table: invocation, shortcut, then the description
/// or the execution pattern.
pub open spec fn verb_row_spec(v: Verb) -> Seq<char> {
    "|"@ + invocation_usage(v.invocation.name@, v.invocation.args.deep_view()) + "|"@ + (
    match v.shortcut {
        Option::Some(s) => s@,
        Option::None => Seq::<char>::empty(),
    }) + "|"@ + (match v.description {
        Option::Some(d) => d@ + "\n"@,
        Option::None => "`"@ + v.execution@ + "`\n"@,
    })
}

pub open spec fn verb_rows_spec(vs: Seq<Verb>) -> Seq<char>
    decreases vs.len(),
{
    if vs.len() == 0 {
        Seq::empty()
    } else {
        verb_rows_spec(vs.drop_last()) + verb_row_spec(vs.last())
    }
}

/// The whole verbs table: header, one row per verb in registry order, and
/// the closing row.
pub open spec fn verbs_table_spec(vs: Seq<Verb>) -> Seq<char> {
    "|-:\n"@ + "|**name**|**shortcut**|**description**\n"@ + "|-:|:-:|:-\n"@ + verb_rows_spec(vs)
        + "|:-|-|:-\n"@
}

fn verb_row(v: &Verb) -> (r: String)
    ensures
        r@ == verb_row_spec(*v),
{
    let mut r = String::from_str("|");
    let usage = v.invocation.to_string_for_name(&v.invocation.name);
    r.append(usage.as_str());
    r.append("|");
    match &v.shortcut {
        Some(s) => {
            r.append(s.as_str());
        },
        None => {},
    }
    r.append("|");
    match &v.description {
        Some(d) => {
            r.append(d.as_str());
            r.append("\n");
        },
        None => {
            r.append("`");
            r.append(v.execution.as_str());
            r.append("`\n");
        },
    }
    proof {
        assert(r@ =~= verb_row_spec(*v));
    }
    r
}

/// Appends the verbs table to `md`, one row per verb in registry order.
pub fn append_verbs_table(md: &mut String, con: &AppContext)
    ensures
        final(md)@ == old(md)@ + verbs_table_spec(con.verbs@),
{
    md.append("|-:\n");
    md.append("|**name**|**shortcut**|**description**\n");
    md.append("|-:|:-:|:-\n");
    let ghost head = old(md)@ + "|-:\n"@ + "|**name**|**shortcut**|**description**\n"@
        + "|-:|:-:|:-\n"@;
    let mut i: usize = 0;
    while i < con.verbs.len()
        invariant
            i <= con.verbs.len(),
            head == old(md)@ + "|-:\n"@ + "|**name**|**shortcut**|**description**\n"@
                + "|-:|:-:|:-\n"@,
            md@ == head + verb_rows_spec(con.verbs@.subrange(0, i as int)),
        decreases con.verbs.len() - i,
    {
        let row = verb_row(&con.verbs[i]);
        md.append(row.as_str());
        proof {
            let pre = con.verbs@.subrange(0, i as int);
            let post = con.verbs@.subrange(0, i as int + 1);
            assert(post.drop_last() =~= pre);
            assert(post.last() == con.verbs@[i as int]);
            assert(md@ =~= head + verb_rows_spec(post));
        }
        i = i + 1;
    }
    proof {
        assert(con.verbs@.subrange(0, con.verbs@.len() as int) =~= con.verbs@);
    }
    md.append("|:-|-|:-\n");
    proof {
        assert(md@ =~= old(md)@ + verbs_table_spec(con.verbs@));
    }
}

/// The line naming where verbs and skin are configured.
pub open spec fn config_info_spec(location: Seq<char>) -> Seq<char> {
    " Verbs and skin can be configured in \""@ + location + "\".\n"@
}

/// Appends the configuration pointer to `md`.
pub fn append_config_info(md: &mut String, con: &AppContext)
    ensures
        final(md)@ == old(md)@ + config_info_spec(con.config_location@),
{
    md.append(" Verbs and skin can be configured in \"");
    md.append(con.config_location.as_str());
    md.append("\".\n");
    proof {
        assert(md@ =~= old(md)@ + config_info_spec(con.config_location@));
    }
}

/// The markdown of the whole help page: intro, verbs table, configuration
/// pointer, launch arguments and flags.
pub fn build_markdown(con: &AppContext) -> (r: String)
    ensures
        r@ == MD_HELP_INTRO@ + verbs_table_spec(con.verbs@) + config_info_spec(
            con.config_location@,
        ) + MD_HELP_LAUNCH_ARGUMENTS@ + MD_HELP_FLAGS@,
{
    let mut md = String::from_str(MD_HELP_INTRO);
    append_verbs_table(&mut md, con);
    append_config_info(&mut md, con);
    md.append(MD_HELP_LAUNCH_ARGUMENTS);
    md.append(MD_HELP_FLAGS);
    proof {
        assert(md@ =~= MD_HELP_INTRO@ + verbs_table_spec(con.verbs@) + config_info_spec(
            con.config_location@,
        ) + MD_HELP_LAUNCH_ARGUMENTS@ + MD_HELP_FLAGS@);
    }
    md
}

} // verus!
