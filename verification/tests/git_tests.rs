use vuno::git::{
    git_add_args, git_add_message, git_checkout_args, git_clone_args, git_commit_args,
    git_diff_args, git_log_args, git_pull_args, git_push_args, parse_git_branches, parse_git_log,
    parse_git_status,
};

fn b(s: &str) -> Vec<u8> {
    s.as_bytes().to_vec()
}

#[test]
fn status_classifies_porcelain_lines() {
    let branch = b("main\n");
    let porcelain = b(" M lib.rs\nM  cli.rs\nMM both.rs\nA  new.rs\nAM new2.rs\n D gone.rs\nD  gone2.rs\n?? notes.txt\nR  renamed.rs\nx\n");
    let s = parse_git_status(&branch, &porcelain);
    assert_eq!(s.branch, b("main"));
    assert_eq!(s.modified, vec![b("lib.rs"), b("cli.rs"), b("both.rs")]);
    assert_eq!(s.added, vec![b("new.rs"), b("new2.rs")]);
    assert_eq!(s.deleted, vec![b("gone.rs"), b("gone2.rs")]);
    assert_eq!(s.untracked, vec![b("notes.txt")]);
}

#[test]
fn status_trims_the_branch_name() {
    let s = parse_git_status(&b("  feature/x  \n"), &b(""));
    assert_eq!(s.branch, b("feature/x"));
    assert!(s.modified.is_empty());
}

#[test]
fn branch_list_marks_the_current_branch() {
    let out = b("* main\n  dev\n\n  remotes/origin/main\n");
    let branches = parse_git_branches(&out);
    assert_eq!(branches.len(), 3);
    assert_eq!(branches[0].name, b("main"));
    assert!(branches[0].is_current);
    assert_eq!(branches[1].name, b("dev"));
    assert!(!branches[1].is_current);
    assert_eq!(branches[2].name, b("remotes/origin/main"));
}

#[test]
fn log_lines_split_into_four_fields() {
    let out = b("abc123|alice|2024-01-02|fix the parser\ndef456|bob|2024-01-03|title|with pipe\nmalformed\n");
    let commits = parse_git_log(&out);
    assert_eq!(commits.len(), 2);
    assert_eq!(commits[0].hash, b("abc123"));
    assert_eq!(commits[0].author, b("alice"));
    assert_eq!(commits[0].date, b("2024-01-02"));
    assert_eq!(commits[0].message, b("fix the parser"));
    assert_eq!(commits[1].message, b("title"));
}

#[test]
fn add_requires_files() {
    assert_eq!(git_add_args(&vec![]), Err(b("No files specified to add")));
    let args = git_add_args(&vec![b("a.rs"), b("b.rs")]).unwrap();
    assert_eq!(args, vec![b("add"), b("a.rs"), b("b.rs")]);
    assert_eq!(git_add_message(2), b("Added 2 file(s)"));
}

#[test]
fn commit_requires_a_message() {
    assert_eq!(git_commit_args(&b("")), Err(b("Commit message cannot be empty")));
    assert_eq!(git_commit_args(&b("msg")).unwrap(), vec![b("commit"), b("-m"), b("msg")]);
}

#[test]
fn push_and_pull_take_optional_remote_and_branch() {
    assert_eq!(git_push_args(&None, &None), vec![b("push")]);
    assert_eq!(
        git_push_args(&Some(b("origin")), &Some(b("main"))),
        vec![b("push"), b("origin"), b("main")]
    );
    assert_eq!(git_pull_args(&Some(b("origin")), &None), vec![b("pull"), b("origin")]);
}

#[test]
fn checkout_can_create_a_branch() {
    assert_eq!(git_checkout_args(&b(""), false), Err(b("Branch name cannot be empty")));
    assert_eq!(git_checkout_args(&b("dev"), false).unwrap(), vec![b("checkout"), b("dev")]);
    assert_eq!(
        git_checkout_args(&b("dev"), true).unwrap(),
        vec![b("checkout"), b("-b"), b("dev")]
    );
}

#[test]
fn diff_log_and_clone_arguments() {
    assert_eq!(git_diff_args(&None), vec![b("diff")]);
    assert_eq!(git_diff_args(&Some(b("lib.rs"))), vec![b("diff"), b("lib.rs")]);
    assert_eq!(
        git_log_args(None),
        vec![b("log"), b("-20"), b("--pretty=format:%H|%an|%ad|%s"), b("--date=short")]
    );
    assert_eq!(git_log_args(Some(7))[1], b("-7"));
    assert_eq!(git_clone_args(&b(""), &None), Err(b("Repository URL cannot be empty")));
    assert_eq!(
        git_clone_args(&b("u://r"), &Some(b("dest"))).unwrap(),
        vec![b("clone"), b("u://r"), b("dest")]
    );
}
