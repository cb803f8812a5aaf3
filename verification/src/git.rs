//! The version-control collaborator's data model and the pure halves of its
//! operations: parsing what the `git` executable printed, and assembling
//! and validating the argument lists handed to it. Running the executable
//! is the host's business.

use vstd::prelude::*;
use vstd::string::StrSliceExecFns;
use vstd::string::StringSliceAdditionalSpecFns;
use crate::text::{
    append_bytes, copy_bytes, decimal, format_u64, lines_of, split_by, split_lines, split_on,
    sub_bytes, trim, trimmed,
};

verus! {

/// The working tree's state, as `git status --porcelain` reports it.
pub struct GitStatus {
    pub branch: Vec<u8>,
    pub modified: Vec<Vec<u8>>,
    pub added: Vec<Vec<u8>>,
    pub deleted: Vec<Vec<u8>>,
    pub untracked: Vec<Vec<u8>>,
}

/// The mathematical value of a [`GitStatus`].
#[verifier::ext_equal]
pub ghost struct GitStatusView {
    pub branch: Seq<u8>,
    pub modified: Seq<Seq<u8>>,
    pub added: Seq<Seq<u8>>,
    pub deleted: Seq<Seq<u8>>,
    pub untracked: Seq<Seq<u8>>,
}

impl View for GitStatus {
    type V = GitStatusView;

    open spec fn view(&self) -> GitStatusView {
        GitStatusView {
            branch: self.branch@,
            modified: self.modified@.map_values(|p: Vec<u8>| p@),
            added: self.added@.map_values(|p: Vec<u8>| p@),
            deleted: self.deleted@.map_values(|p: Vec<u8>| p@),
            untracked: self.untracked@.map_values(|p: Vec<u8>| p@),
        }
    }
}

/// One line of the commit log.
pub struct GitCommit {
    pub hash: Vec<u8>,
    pub author: Vec<u8>,
    pub date: Vec<u8>,
    pub message: Vec<u8>,
}

/// The mathematical value of a [`GitCommit`].
#[verifier::ext_equal]
pub ghost struct GitCommitView {
    pub hash: Seq<u8>,
    pub author: Seq<u8>,
    pub date: Seq<u8>,
    pub message: Seq<u8>,
}

impl View for GitCommit {
    type V = GitCommitView;

    open spec fn view(&self) -> GitCommitView {
        GitCommitView {
            hash: self.hash@,
            author: self.author@,
            date: self.date@,
            message: self.message@,
        }
    }
}

/// One branch of the repository.
pub struct GitBranch {
    pub name: Vec<u8>,
    pub is_current: bool,
}

/// The mathematical value of a [`GitBranch`].
#[verifier::ext_equal]
pub ghost struct GitBranchView {
    pub name: Seq<u8>,
    pub is_current: bool,
}

impl View for GitBranch {
    type V = GitBranchView;

    open spec fn view(&self) -> GitBranchView {
        GitBranchView { name: self.name@, is_current: self.is_current }
    }
}

/// The two-byte state code of a porcelain status line.
pub open spec fn status_code(line: Seq<u8>) -> Seq<u8> {
    line.subrange(0, 2)
}

/// The path of a porcelain status line.
pub open spec fn status_path(line: Seq<u8>) -> Seq<u8> {
    line.subrange(3, line.len() as int)
}

/// Whether a porcelain line reports a modified file.
pub open spec fn is_modified_line(line: Seq<u8>) -> bool {
    line.len() >= 3 && (status_code(line) == " M".spec_bytes() || status_code(line)
        == "M ".spec_bytes() || status_code(line) == "MM".spec_bytes())
}

/// Whether a porcelain line reports an added file.
pub open spec fn is_added_line(line: Seq<u8>) -> bool {
    line.len() >= 3 && (status_code(line) == "A ".spec_bytes() || status_code(line)
        == "AM".spec_bytes())
}

/// Whether a porcelain line reports a deleted file.
pub open spec fn is_deleted_line(line: Seq<u8>) -> bool {
    line.len() >= 3 && (status_code(line) == " D".spec_bytes() || status_code(line)
        == "D ".spec_bytes())
}

/// Whether a porcelain line reports an untracked file.
pub open spec fn is_untracked_line(line: Seq<u8>) -> bool {
    line.len() >= 3 && status_code(line) == "??".spec_bytes()
}

/// The paths of the lines satisfying `sel`, in input order.
pub open spec fn selected_paths(lines: Seq<Seq<u8>>, sel: spec_fn(Seq<u8>) -> bool) -> Seq<Seq<u8>>
    decreases lines.len(),
{
    if lines.len() == 0 {
        Seq::<Seq<u8>>::empty()
    } else {
        selected_paths(lines.drop_last(), sel) + if sel(lines.last()) {
            seq![status_path(lines.last())]
        } else {
            Seq::<Seq<u8>>::empty()
        }
    }
}

/// The [`GitStatus`] that `git branch --show-current` and `git status
/// --porcelain` outputs describe.
pub open spec fn status_of(branch_raw: Seq<u8>, status_raw: Seq<u8>) -> GitStatusView {
    let lines = lines_of(status_raw);
    GitStatusView {
        branch: trimmed(branch_raw),
        modified: selected_paths(lines, |l: Seq<u8>| is_modified_line(l)),
        added: selected_paths(lines, |l: Seq<u8>| is_added_line(l)),
        deleted: selected_paths(lines, |l: Seq<u8>| is_deleted_line(l)),
        untracked: selected_paths(lines, |l: Seq<u8>| is_untracked_line(l)),
    }
}

/// Parses the outputs of `git branch --show-current` and `git status
/// --porcelain` into a [`GitStatus`]: each sufficiently long line is
/// classified by its two-byte state code; everything else is ignored.
pub fn parse_git_status(branch_raw: &Vec<u8>, status_raw: &Vec<u8>) -> (r: GitStatus)
    ensures
        r@ == status_of(branch_raw@, status_raw@),
{
    let branch = trim(branch_raw);
    let lines = split_lines(status_raw);
    let ghost lv = lines@.map_values(|l: Vec<u8>| l@);
    let mut modified: Vec<Vec<u8>> = Vec::new();
    let mut added: Vec<Vec<u8>> = Vec::new();
    let mut deleted: Vec<Vec<u8>> = Vec::new();
    let mut untracked: Vec<Vec<u8>> = Vec::new();
    let mut i: usize = 0;
    proof {
        assert(lv.subrange(0, 0) =~= Seq::<Seq<u8>>::empty());
    }
    while i < lines.len()
        invariant
            i <= lines@.len(),
            lv == lines@.map_values(|l: Vec<u8>| l@),
            modified@.map_values(|p: Vec<u8>| p@) == selected_paths(
                lv.subrange(0, i as int),
                |l: Seq<u8>| is_modified_line(l),
            ),
            added@.map_values(|p: Vec<u8>| p@) == selected_paths(
                lv.subrange(0, i as int),
                |l: Seq<u8>| is_added_line(l),
            ),
            deleted@.map_values(|p: Vec<u8>| p@) == selected_paths(
                lv.subrange(0, i as int),
                |l: Seq<u8>| is_deleted_line(l),
            ),
            untracked@.map_values(|p: Vec<u8>| p@) == selected_paths(
                lv.subrange(0, i as int),
                |l: Seq<u8>| is_untracked_line(l),
            ),
        decreases lines.len() - i,
    {
        let line = &lines[i];
        if line.len() >= 3 {
            let code = sub_bytes(line, 0, 2);
            let path = sub_bytes(line, 3, line.len());
            proof {
                assert(code@ == status_code(lv[i as int]));
                assert(path@ == status_path(lv[i as int]));
            }
            let is_mod = crate::text::bytes_eq(&code, &" M".as_bytes_vec())
                || crate::text::bytes_eq(&code, &"M ".as_bytes_vec()) || crate::text::bytes_eq(
                &code,
                &"MM".as_bytes_vec(),
            );
            let is_add = crate::text::bytes_eq(&code, &"A ".as_bytes_vec())
                || crate::text::bytes_eq(&code, &"AM".as_bytes_vec());
            let is_del = crate::text::bytes_eq(&code, &" D".as_bytes_vec())
                || crate::text::bytes_eq(&code, &"D ".as_bytes_vec());
            let is_unt = crate::text::bytes_eq(&code, &"??".as_bytes_vec());
            if is_mod {
                modified.push(copy_bytes(&path));
            }
            if is_add {
                added.push(copy_bytes(&path));
            }
            if is_del {
                deleted.push(copy_bytes(&path));
            }
            if is_unt {
                untracked.push(copy_bytes(&path));
            }
        }
        proof {
            let step = lv.subrange(0, i + 1);
            assert(step.drop_last() =~= lv.subrange(0, i as int));
            assert(step.last() == lv[i as int]);
            assert(modified@.map_values(|p: Vec<u8>| p@) =~= selected_paths(
                step,
                |l: Seq<u8>| is_modified_line(l),
            ));
            assert(added@.map_values(|p: Vec<u8>| p@) =~= selected_paths(
                step,
                |l: Seq<u8>| is_added_line(l),
            ));
            assert(deleted@.map_values(|p: Vec<u8>| p@) =~= selected_paths(
                step,
                |l: Seq<u8>| is_deleted_line(l),
            ));
            assert(untracked@.map_values(|p: Vec<u8>| p@) =~= selected_paths(
                step,
                |l: Seq<u8>| is_untracked_line(l),
            ));
        }
        i += 1;
    }
    proof {
        assert(lv.subrange(0, lv.len() as int) =~= lv);
    }
    let r = GitStatus { branch, modified, added, deleted, untracked };
    proof {
        assert(r@ =~= status_of(branch_raw@, status_raw@));
    }
    r
}

/// The branch a `git branch -a` line describes, if any: the line is
/// trimmed, an empty line describes none, a leading `*` marks the current
/// branch whose name then follows after two bytes.
pub open spec fn branch_of_line(line: Seq<u8>) -> Option<GitBranchView> {
    let t = trimmed(line);
    if t.len() == 0 {
        None
    } else if t[0] == 42 {
        let start = if t.len() >= 2 {
            2int
        } else {
            t.len() as int
        };
        Some(GitBranchView { name: t.subrange(start, t.len() as int), is_current: true })
    } else {
        Some(GitBranchView { name: t, is_current: false })
    }
}

/// The branches a whole `git branch -a` output describes, in output order.
pub open spec fn branches_of(lines: Seq<Seq<u8>>) -> Seq<GitBranchView>
    decreases lines.len(),
{
    if lines.len() == 0 {
        Seq::<GitBranchView>::empty()
    } else {
        branches_of(lines.drop_last()) + match branch_of_line(lines.last()) {
            Some(b) => seq![b],
            None => Seq::<GitBranchView>::empty(),
        }
    }
}

/// Parses the output of `git branch -a` into the branch list.
pub fn parse_git_branches(out: &Vec<u8>) -> (r: Vec<GitBranch>)
    ensures
        r@.map_values(|b: GitBranch| b@) == branches_of(lines_of(out@)),
{
    let lines = split_lines(out);
    let ghost lv = lines@.map_values(|l: Vec<u8>| l@);
    let mut r: Vec<GitBranch> = Vec::new();
    let mut i: usize = 0;
    proof {
        assert(lv.subrange(0, 0) =~= Seq::<Seq<u8>>::empty());
    }
    while i < lines.len()
        invariant
            i <= lines@.len(),
            lv == lines@.map_values(|l: Vec<u8>| l@),
            r@.map_values(|b: GitBranch| b@) == branches_of(lv.subrange(0, i as int)),
        decreases lines.len() - i,
    {
        let t = trim(&lines[i]);
        if t.len() > 0 {
            if t[0] == 42 {
                let start = if t.len() >= 2 {
                    2
                } else {
                    t.len()
                };
                let name = sub_bytes(&t, start, t.len());
                r.push(GitBranch { name, is_current: true });
            } else {
                r.push(GitBranch { name: t, is_current: false });
            }
        }
        proof {
            let step = lv.subrange(0, i + 1);
            assert(step.drop_last() =~= lv.subrange(0, i as int));
            assert(step.last() == lv[i as int]);
            assert(r@.map_values(|b: GitBranch| b@) =~= branches_of(step));
        }
        i += 1;
    }
    proof {
        assert(lv.subrange(0, lv.len() as int) =~= lv);
    }
    r
}

/// The commit a formatted log line describes: four `|`-separated fields,
/// hash, author, date and message; a line with fewer fields describes none.
pub open spec fn commit_of_line(line: Seq<u8>) -> Option<GitCommitView> {
    let parts = split_by(line, 124);
    if parts.len() >= 4 {
        Some(
            GitCommitView {
                hash: parts[0],
                author: parts[1],
                date: parts[2],
                message: parts[3],
            },
        )
    } else {
        None
    }
}

/// The commits a whole formatted log output describes, in output order.
pub open spec fn commits_of(lines: Seq<Seq<u8>>) -> Seq<GitCommitView>
    decreases lines.len(),
{
    if lines.len() == 0 {
        Seq::<GitCommitView>::empty()
    } else {
        commits_of(lines.drop_last()) + match commit_of_line(lines.last()) {
            Some(c) => seq![c],
            None => Seq::<GitCommitView>::empty(),
        }
    }
}

/// Parses the output of `git log --pretty=format:%H|%an|%ad|%s` into the
/// commit list.
pub fn parse_git_log(out: &Vec<u8>) -> (r: Vec<GitCommit>)
    ensures
        r@.map_values(|c: GitCommit| c@) == commits_of(lines_of(out@)),
{
    let lines = split_lines(out);
    let ghost lv = lines@.map_values(|l: Vec<u8>| l@);
    let mut r: Vec<GitCommit> = Vec::new();
    let mut i: usize = 0;
    proof {
        assert(lv.subrange(0, 0) =~= Seq::<Seq<u8>>::empty());
    }
    while i < lines.len()
        invariant
            i <= lines@.len(),
            lv == lines@.map_values(|l: Vec<u8>| l@),
            r@.map_values(|c: GitCommit| c@) == commits_of(lv.subrange(0, i as int)),
        decreases lines.len() - i,
    {
        let mut parts = split_on(&lines[i], 124);
        proof {
            assert(parts@.map_values(|p: Vec<u8>| p@) == split_by(lv[i as int], 124));
        }
        if parts.len() >= 4 {
            let hash = copy_bytes(&parts[0]);
            let author = copy_bytes(&parts[1]);
            let date = copy_bytes(&parts[2]);
            let message = copy_bytes(&parts[3]);
            let c = GitCommit { hash, author, date, message };
            proof {
                assert(c@ =~= commit_of_line(lv[i as int]).unwrap());
            }
            r.push(c);
        }
        proof {
            let step = lv.subrange(0, i + 1);
            assert(step.drop_last() =~= lv.subrange(0, i as int));
            assert(step.last() == lv[i as int]);
            assert(r@.map_values(|c: GitCommit| c@) =~= commits_of(step));
        }
        i += 1;
    }
    proof {
        assert(lv.subrange(0, lv.len() as int) =~= lv);
    }
    r
}

/// The argument list of a `git add`, or the error for an empty file list.
pub fn git_add_args(files: &Vec<Vec<u8>>) -> (r: Result<Vec<Vec<u8>>, Vec<u8>>)
    ensures
        files@.len() == 0 <==> r is Err,
        r matches Err(e) ==> e@ == "No files specified to add".spec_bytes(),
        r matches Ok(args) ==> args@.map_values(|a: Vec<u8>| a@) == seq!["add".spec_bytes()]
            + files@.map_values(|f: Vec<u8>| f@),
{
    if files.len() == 0 {
        return Err("No files specified to add".as_bytes_vec());
    }
    let mut args: Vec<Vec<u8>> = Vec::new();
    args.push("add".as_bytes_vec());
    proof {
        assert(args@.map_values(|a: Vec<u8>| a@) =~= seq!["add".spec_bytes()]
            + files@.map_values(|f: Vec<u8>| f@).subrange(0, 0));
    }
    let mut i: usize = 0;
    while i < files.len()
        invariant
            i <= files@.len(),
            args@.map_values(|a: Vec<u8>| a@) == seq!["add".spec_bytes()] + files@.map_values(
                |f: Vec<u8>| f@,
            ).subrange(0, i as int),
        decreases files.len() - i,
    {
        let ghost prev = args@;
        args.push(copy_bytes(&files[i]));
        proof {
            let fm = files@.map_values(|f: Vec<u8>| f@);
            assert(fm[i as int] == files@[i as int]@);
            assert(args@.map_values(|a: Vec<u8>| a@) =~= prev.map_values(|a: Vec<u8>| a@).push(
                fm[i as int],
            ));
            assert(fm.subrange(0, i + 1) =~= fm.subrange(0, i as int).push(fm[i as int]));
            assert((seq!["add".spec_bytes()] + fm.subrange(0, i as int)).push(
                fm[i as int],
            ) =~= seq!["add".spec_bytes()] + fm.subrange(0, i + 1));
            assert(args@.map_values(|a: Vec<u8>| a@) =~= seq!["add".spec_bytes()] + fm.subrange(
                0,
                i + 1,
            ));
        }
        i += 1;
    }
    proof {
        assert(files@.map_values(|f: Vec<u8>| f@).subrange(
            0,
            files@.len() as int,
        ) =~= files@.map_values(|f: Vec<u8>| f@));
    }
    Ok(args)
}

/// The confirmation message of a completed `git add`.
pub fn git_add_message(count: usize) -> (r: Vec<u8>)
    ensures
        r@ == "Added ".spec_bytes() + decimal(count as int) + " file(s)".spec_bytes(),
{
    let mut r = "Added ".as_bytes_vec();
    let n = format_u64(count as u64);
    append_bytes(&mut r, &n);
    append_bytes(&mut r, &" file(s)".as_bytes_vec());
    r
}

/// The argument list of a `git commit`, or the error for an empty message.
pub fn git_commit_args(message: &Vec<u8>) -> (r: Result<Vec<Vec<u8>>, Vec<u8>>)
    ensures
        message@.len() == 0 <==> r is Err,
        r matches Err(e) ==> e@ == "Commit message cannot be empty".spec_bytes(),
        r matches Ok(args) ==> args@.map_values(|a: Vec<u8>| a@) == seq![
            "commit".spec_bytes(),
            "-m".spec_bytes(),
            message@,
        ],
{
    if message.len() == 0 {
        return Err("Commit message cannot be empty".as_bytes_vec());
    }
    let mut args: Vec<Vec<u8>> = Vec::new();
    args.push("commit".as_bytes_vec());
    args.push("-m".as_bytes_vec());
    args.push(copy_bytes(message));
    proof {
        assert(args@.map_values(|a: Vec<u8>| a@) =~= seq![
            "commit".spec_bytes(),
            "-m".spec_bytes(),
            message@,
        ]);
    }
    Ok(args)
}

/// The optional remote and branch arguments appended to a `git push` or
/// `git pull`.
pub open spec fn remote_branch_args(
    verb: Seq<u8>,
    remote: Option<Seq<u8>>,
    branch: Option<Seq<u8>>,
) -> Seq<Seq<u8>> {
    seq![verb] + (match remote {
        Some(x) => seq![x],
        None => Seq::<Seq<u8>>::empty(),
    }) + (match branch {
        Some(x) => seq![x],
        None => Seq::<Seq<u8>>::empty(),
    })
}

/// The argument list of a `git push`.
pub fn git_push_args(remote: &Option<Vec<u8>>, branch: &Option<Vec<u8>>) -> (r: Vec<Vec<u8>>)
    ensures
        r@.map_values(|a: Vec<u8>| a@) == remote_branch_args(
            "push".spec_bytes(),
            crate::text::opt_bytes(*remote),
            crate::text::opt_bytes(*branch),
        ),
{
    push_pull_args("push".as_bytes_vec(), remote, branch)
}

/// The argument list of a `git pull`.
pub fn git_pull_args(remote: &Option<Vec<u8>>, branch: &Option<Vec<u8>>) -> (r: Vec<Vec<u8>>)
    ensures
        r@.map_values(|a: Vec<u8>| a@) == remote_branch_args(
            "pull".spec_bytes(),
            crate::text::opt_bytes(*remote),
            crate::text::opt_bytes(*branch),
        ),
{
    push_pull_args("pull".as_bytes_vec(), remote, branch)
}

fn push_pull_args(verb: Vec<u8>, remote: &Option<Vec<u8>>, branch: &Option<Vec<u8>>) -> (r: Vec<
    Vec<u8>,
>)
    ensures
        r@.map_values(|a: Vec<u8>| a@) == remote_branch_args(
            verb@,
            crate::text::opt_bytes(*remote),
            crate::text::opt_bytes(*branch),
        ),
{
    let mut args: Vec<Vec<u8>> = Vec::new();
    args.push(verb);
    match remote {
        Some(x) => args.push(copy_bytes(x)),
        None => (),
    }
    match branch {
        Some(x) => args.push(copy_bytes(x)),
        None => (),
    }
    proof {
        assert(args@.map_values(|a: Vec<u8>| a@) =~= remote_branch_args(
            verb@,
            crate::text::opt_bytes(*remote),
            crate::text::opt_bytes(*branch),
        ));
    }
    args
}

/// The argument list of a `git checkout`, or the error for an empty branch
/// name.
pub fn git_checkout_args(branch: &Vec<u8>, create_new: bool) -> (r: Result<Vec<Vec<u8>>, Vec<u8>>)
    ensures
        branch@.len() == 0 <==> r is Err,
        r matches Err(e) ==> e@ == "Branch name cannot be empty".spec_bytes(),
        r matches Ok(args) ==> args@.map_values(|a: Vec<u8>| a@) == seq!["checkout".spec_bytes()]
            + (if create_new {
            seq!["-b".spec_bytes()]
        } else {
            Seq::<Seq<u8>>::empty()
        }) + seq![branch@],
{
    if branch.len() == 0 {
        return Err("Branch name cannot be empty".as_bytes_vec());
    }
    let mut args: Vec<Vec<u8>> = Vec::new();
    args.push("checkout".as_bytes_vec());
    if create_new {
        args.push("-b".as_bytes_vec());
    }
    args.push(copy_bytes(branch));
    proof {
        assert(args@.map_values(|a: Vec<u8>| a@) =~= seq!["checkout".spec_bytes()] + (if create_new {
            seq!["-b".spec_bytes()]
        } else {
            Seq::<Seq<u8>>::empty()
        }) + seq![branch@]);
    }
    Ok(args)
}

/// The argument list of a `git diff`, with an optional path to narrow it.
pub fn git_diff_args(file_path: &Option<Vec<u8>>) -> (r: Vec<Vec<u8>>)
    ensures
        r@.map_values(|a: Vec<u8>| a@) == seq!["diff".spec_bytes()] + (match crate::text::opt_bytes(
            *file_path,
        ) {
            Some(p) => seq![p],
            None => Seq::<Seq<u8>>::empty(),
        }),
{
    let mut args: Vec<Vec<u8>> = Vec::new();
    args.push("diff".as_bytes_vec());
    match file_path {
        Some(p) => args.push(copy_bytes(p)),
        None => (),
    }
    proof {
        assert(args@.map_values(|a: Vec<u8>| a@) =~= seq!["diff".spec_bytes()] + (match crate::text::opt_bytes(
            *file_path,
        ) {
            Some(p) => seq![p],
            None => Seq::<Seq<u8>>::empty(),
        }));
    }
    args
}

/// The argument list of a `git log` limited to `limit` commits (twenty when
/// none is given), in the `hash|author|date|subject` line format the parser
/// reads back.
pub fn git_log_args(limit: Option<u32>) -> (r: Vec<Vec<u8>>)
    ensures
        r@.map_values(|a: Vec<u8>| a@) == seq![
            "log".spec_bytes(),
            seq![45u8] + decimal(
                match limit {
                    Some(n) => n as int,
                    None => 20,
                },
            ),
            "--pretty=format:%H|%an|%ad|%s".spec_bytes(),
            "--date=short".spec_bytes(),
        ],
{
    let n: u32 = match limit {
        Some(n) => n,
        None => 20,
    };
    let mut count_arg: Vec<u8> = Vec::new();
    count_arg.push(45);
    let digits = format_u64(n as u64);
    append_bytes(&mut count_arg, &digits);
    proof {
        assert(count_arg@ =~= seq![45u8] + decimal(
            match limit {
                Some(m) => m as int,
                None => 20,
            },
        ));
    }
    let mut args: Vec<Vec<u8>> = Vec::new();
    args.push("log".as_bytes_vec());
    args.push(count_arg);
    args.push("--pretty=format:%H|%an|%ad|%s".as_bytes_vec());
    args.push("--date=short".as_bytes_vec());
    proof {
        assert(args@.map_values(|a: Vec<u8>| a@) =~= seq![
            "log".spec_bytes(),
            seq![45u8] + decimal(
                match limit {
                    Some(m) => m as int,
                    None => 20,
                },
            ),
            "--pretty=format:%H|%an|%ad|%s".spec_bytes(),
            "--date=short".spec_bytes(),
        ]);
    }
    args
}

/// The argument list of a `git clone`, or the error for an empty URL.
pub fn git_clone_args(url: &Vec<u8>, destination: &Option<Vec<u8>>) -> (r: Result<
    Vec<Vec<u8>>,
    Vec<u8>,
>)
    ensures
        url@.len() == 0 <==> r is Err,
        r matches Err(e) ==> e@ == "Repository URL cannot be empty".spec_bytes(),
        r matches Ok(args) ==> args@.map_values(|a: Vec<u8>| a@) == seq![
            "clone".spec_bytes(),
            url@,
        ] + (match crate::text::opt_bytes(*destination) {
            Some(d) => seq![d],
            None => Seq::<Seq<u8>>::empty(),
        }),
{
    if url.len() == 0 {
        return Err("Repository URL cannot be empty".as_bytes_vec());
    }
    let mut args: Vec<Vec<u8>> = Vec::new();
    args.push("clone".as_bytes_vec());
    args.push(copy_bytes(url));
    match destination {
        Some(d) => args.push(copy_bytes(d)),
        None => (),
    }
    proof {
        assert(args@.map_values(|a: Vec<u8>| a@) =~= seq!["clone".spec_bytes(), url@] + (
        match crate::text::opt_bytes(*destination) {
            Some(d) => seq![d],
            None => Seq::<Seq<u8>>::empty(),
        }));
    }
    Ok(args)
}

} // verus!
