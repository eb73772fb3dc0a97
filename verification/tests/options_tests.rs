use git_tree::git_command::git_args;
use git_tree::git_wrapper_error::GitWrapperError;
use git_tree::run_options::RunOptions;
use git_tree::startup::{top_level_check, work_tree_check};
use git_tree::text::{parse_dec_usize, parse_octal_u32, trim_end_spaces};

#[test]
fn ascii_flag_picks_the_ascii_connectors() {
    let opts = RunOptions::new(".".to_string(), true, "/abs".to_string());
    let ps = opts.prefix_set();
    assert_eq!(ps.parent_prefix, "|   ");
    assert_eq!(ps.no_parent_prefix, "    ");
    assert_eq!(ps.entry_prefix, "|-- ");
    assert_eq!(ps.last_entry_prefix, "`-- ");
    assert_eq!(opts.requested_path(), ".");
    assert_eq!(opts.initial_path(), "/abs");
}

#[test]
fn default_connectors_are_box_drawing() {
    let opts = RunOptions::new("x".to_string(), false, "/x".to_string());
    let ps = opts.prefix_set();
    assert_eq!(ps.parent_prefix, "│   ");
    assert_eq!(ps.no_parent_prefix, "    ");
    assert_eq!(ps.entry_prefix, "├── ");
    assert_eq!(ps.last_entry_prefix, "└── ");
}

#[test]
fn work_tree_gate_exit_codes() {
    assert_eq!(work_tree_check(&Ok(true)), None);
    assert_eq!(work_tree_check(&Ok(false)), Some(1));
    assert_eq!(
        work_tree_check(&Err(GitWrapperError::new("no tool".to_string()))),
        Some(2)
    );
}

#[test]
fn top_level_gate_exit_codes() {
    assert_eq!(top_level_check(&Ok("/repo".to_string()), true), None);
    assert_eq!(top_level_check(&Ok("/repo".to_string()), false), Some(3));
    assert_eq!(
        top_level_check(&Err(GitWrapperError::new("no tool".to_string())), true),
        Some(4)
    );
}

#[test]
fn git_args_puts_the_subcommand_first() {
    let args = git_args("ls-tree", vec!["--long", "HEAD"]);
    assert_eq!(args, vec!["ls-tree", "--long", "HEAD"]);
    let bare = git_args("rev-parse", vec![]);
    assert_eq!(bare, vec!["rev-parse"]);
}

#[test]
fn trim_end_spaces_removes_the_trailing_newline() {
    assert_eq!(trim_end_spaces("/repo\n"), "/repo");
    assert_eq!(trim_end_spaces("/repo \t\r\n"), "/repo");
    assert_eq!(trim_end_spaces("/repo"), "/repo");
    assert_eq!(trim_end_spaces(""), "");
    assert_eq!(trim_end_spaces(" \n"), "");
    assert_eq!(trim_end_spaces("  a  b"), "  a  b");
}

#[test]
fn error_message_is_kept_verbatim() {
    let e = GitWrapperError::new("fatal: not a git repository".to_string());
    assert_eq!(e.message(), "fatal: not a git repository");
}

#[test]
fn number_parsers_follow_the_standard_library() {
    assert_eq!(parse_octal_u32("100644"), Some(0o100644));
    assert_eq!(parse_octal_u32("+7"), Some(7));
    assert_eq!(parse_octal_u32(""), None);
    assert_eq!(parse_octal_u32("+"), None);
    assert_eq!(parse_octal_u32("-7"), None);
    assert_eq!(parse_octal_u32("8"), None);
    assert_eq!(parse_octal_u32("37777777777"), Some(u32::MAX));
    assert_eq!(parse_octal_u32("40000000000"), None);
    assert_eq!(parse_dec_usize("42"), Some(42));
    assert_eq!(parse_dec_usize("+0"), Some(0));
    assert_eq!(parse_dec_usize("-"), None);
    assert_eq!(parse_dec_usize("4 2"), None);
    assert_eq!(parse_dec_usize("18446744073709551615"), Some(usize::MAX));
    assert_eq!(parse_dec_usize("18446744073709551616"), None);
}
