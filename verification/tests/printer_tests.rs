use git_tree::git_wrapper_error::GitWrapperError;
use git_tree::prefix_set::PrefixSet;
use git_tree::printer::{get_prefix, join_path, OutputLine, TreePrinter};

/// Runs a traversal to completion, answering each listing query from the
/// fixed table; returns the entry lines and the error reports in order.
fn drive(
    mut p: TreePrinter,
    listings: &[(&str, Result<&str, &str>)],
) -> (Vec<String>, Vec<(String, String)>) {
    let mut entries: Vec<String> = Vec::new();
    let mut errors: Vec<(String, String)> = Vec::new();
    let mut steps: u32 = 0;
    while !p.done() {
        steps += 1;
        assert!(steps < 10_000, "traversal did not terminate");
        let out = if let Some(q) = p.next_query() {
            let found = listings.iter().find(|(path, _)| *path == q.as_str());
            let reply = match found {
                Some((_, Ok(text))) => Ok(text.to_string()),
                Some((_, Err(msg))) => Err(GitWrapperError::new(msg.to_string())),
                None => Err(GitWrapperError::new("no such listing".to_string())),
            };
            p.feed(reply)
        } else {
            p.advance()
        };
        match out {
            Some(OutputLine::Entry(text)) => entries.push(text),
            Some(OutputLine::ListingError { path, message }) => errors.push((path, message)),
            None => {}
        }
    }
    assert_eq!(p.flags.len(), 0, "ancestor stack must drain with the frames");
    (entries, errors)
}

#[test]
fn prefix_correctness_two_entries_ascii() {
    let root = "040000\ttree\taaa\t-\tdir_a\n100644\tblob\tbbb\t42\tfile_b\n";
    let child = "100644\tblob\tccc\t7\tf.txt\n";
    let p = TreePrinter::new(PrefixSet::ascii(), "/repo".to_string());
    let (entries, errors) = drive(
        p,
        &[("/repo", Ok(root)), ("/repo/dir_a", Ok(child))],
    );
    assert_eq!(errors.len(), 0);
    assert_eq!(
        entries,
        vec![
            "|-- dir_a".to_string(),
            "|   `-- f.txt".to_string(),
            "`-- file_b".to_string(),
        ]
    );
}

#[test]
fn prefix_correctness_unicode_set() {
    let root = "040000\ttree\taaa\t-\tdir_a\n100644\tblob\tbbb\t42\tfile_b\n";
    let child = "100644\tblob\tccc\t7\tf.txt\n";
    let p = TreePrinter::new(PrefixSet::unicode(), "/repo".to_string());
    let (entries, _) = drive(p, &[("/repo", Ok(root)), ("/repo/dir_a", Ok(child))]);
    assert_eq!(
        entries,
        vec![
            "├── dir_a".to_string(),
            "│   └── f.txt".to_string(),
            "└── file_b".to_string(),
        ]
    );
}

#[test]
fn last_tree_entry_blanks_the_continuation() {
    let root = "100644\tblob\tbbb\t42\tfile_a\n040000\ttree\taaa\t-\tdir_b\n";
    let child = "100644\tblob\tccc\t7\tf.txt\n";
    let p = TreePrinter::new(PrefixSet::ascii(), "/repo".to_string());
    let (entries, _) = drive(p, &[("/repo", Ok(root)), ("/repo/dir_b", Ok(child))]);
    assert_eq!(
        entries,
        vec![
            "|-- file_a".to_string(),
            "`-- dir_b".to_string(),
            "    `-- f.txt".to_string(),
        ]
    );
}

#[test]
fn deep_nesting_builds_layered_prefixes() {
    let root = "040000\ttree\ta\t-\touter\n100644\tblob\tb\t1\ttail\n";
    let outer = "040000\ttree\tc\t-\tinner\n";
    let inner = "100644\tblob\td\t2\tleaf\n";
    let p = TreePrinter::new(PrefixSet::ascii(), "/r".to_string());
    let (entries, _) = drive(
        p,
        &[("/r", Ok(root)), ("/r/outer", Ok(outer)), ("/r/outer/inner", Ok(inner))],
    );
    assert_eq!(
        entries,
        vec![
            "|-- outer".to_string(),
            "|   `-- inner".to_string(),
            "|       `-- leaf".to_string(),
            "`-- tail".to_string(),
        ]
    );
}

#[test]
fn non_fatal_subtree_failure() {
    let root = "040000\ttree\taaa\t-\tdir_a\n100644\tblob\tbbb\t42\tfile_b\n";
    let p = TreePrinter::new(PrefixSet::ascii(), "/repo".to_string());
    let (entries, errors) = drive(
        p,
        &[("/repo", Ok(root)), ("/repo/dir_a", Err("cannot run the tool"))],
    );
    assert_eq!(entries, vec!["|-- dir_a".to_string(), "`-- file_b".to_string()]);
    assert_eq!(
        errors,
        vec![("/repo/dir_a".to_string(), "cannot run the tool".to_string())]
    );
}

#[test]
fn root_listing_failure_reports_and_finishes() {
    let p = TreePrinter::new(PrefixSet::ascii(), "/repo".to_string());
    let (entries, errors) = drive(p, &[("/repo", Err("fatal: not a repository"))]);
    assert_eq!(entries.len(), 0);
    assert_eq!(
        errors,
        vec![("/repo".to_string(), "fatal: not a repository".to_string())]
    );
}

#[test]
fn empty_listing_prints_nothing() {
    let p = TreePrinter::new(PrefixSet::ascii(), "/repo".to_string());
    let (entries, errors) = drive(p, &[("/repo", Ok(""))]);
    assert_eq!(entries.len(), 0);
    assert_eq!(errors.len(), 0);
}

#[test]
fn empty_subtree_listing_keeps_siblings() {
    let root = "040000\ttree\taaa\t-\tdir_a\n100644\tblob\tbbb\t42\tfile_b\n";
    let p = TreePrinter::new(PrefixSet::ascii(), "/repo".to_string());
    let (entries, errors) = drive(p, &[("/repo", Ok(root)), ("/repo/dir_a", Ok(""))]);
    assert_eq!(entries, vec!["|-- dir_a".to_string(), "`-- file_b".to_string()]);
    assert_eq!(errors.len(), 0);
}

#[test]
fn stack_balance_across_a_subtree() {
    let root = "040000\ttree\taaa\t-\tdir_a\n100644\tblob\tbbb\t42\tfile_b\n";
    let child = "100644\tblob\tccc\t7\tf.txt\n";
    let mut p = TreePrinter::new(PrefixSet::ascii(), "/repo".to_string());
    assert_eq!(p.next_query().as_deref(), Some("/repo"));
    assert!(p.feed(Ok(root.to_string())).is_none());
    assert_eq!(p.flags.len(), 0);
    let before = p.flags.len();
    // dir_a is printed and entered: one flag is pushed for the pending branch
    assert!(matches!(p.advance(), Some(OutputLine::Entry(_))));
    assert_eq!(p.flags.len(), before + 1);
    assert_eq!(p.next_query().as_deref(), Some("/repo/dir_a"));
    assert!(p.feed(Ok(child.to_string())).is_none());
    // the subtree prints its one entry, then its frame closes
    assert!(matches!(p.advance(), Some(OutputLine::Entry(_))));
    assert!(p.advance().is_none());
    assert_eq!(
        p.flags.len(),
        before,
        "after a subtree completes the stack is as deep as before it"
    );
}

#[test]
fn queries_are_depth_first_joined_paths() {
    let root = "040000\ttree\taaa\t-\tsub\n";
    let sub = "040000\ttree\tbbb\t-\tdeeper\n";
    let mut p = TreePrinter::new(PrefixSet::ascii(), "/top".to_string());
    p.feed(Ok(root.to_string()));
    p.advance();
    assert_eq!(p.next_query().as_deref(), Some("/top/sub"));
    p.feed(Ok(sub.to_string()));
    p.advance();
    assert_eq!(p.next_query().as_deref(), Some("/top/sub/deeper"));
}

#[test]
fn get_prefix_exact_values() {
    let ps = PrefixSet::ascii();
    assert_eq!(get_prefix(&vec![], false, &ps), "|-- ");
    assert_eq!(get_prefix(&vec![], true, &ps), "`-- ");
    assert_eq!(get_prefix(&vec![true], true, &ps), "|   `-- ");
    assert_eq!(get_prefix(&vec![false], true, &ps), "    `-- ");
    assert_eq!(get_prefix(&vec![true, false], false, &ps), "|       |-- ");
}

#[test]
fn join_path_inserts_one_separator() {
    assert_eq!(
        join_path(&"/repo".to_string(), &"dir".to_string()),
        "/repo/dir".to_string()
    );
}
