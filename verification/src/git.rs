//! The version-control probe: the arguments that are handed to `git`, and
//! the reading of the name-status diff that it prints.

use vstd::prelude::*;
use vstd::string::*;
use crate::error::Error;
use crate::text::{lines_of, split_lines, split_on, split_text, texts, trim_text, trimmed};

verus! {

/// What happened to a file between two revisions.
#[derive(Debug, Clone, PartialEq)]
pub enum FileChangeType {
    Added,
    Modified,
    Deleted,
    Renamed { old_path: String },
}

/// One changed file: its path after the change, and what happened to it.
#[derive(Debug, Clone)]
pub struct FileChange {
    pub path: String,
    pub change_type: FileChangeType,
}

/// What a change type holds, as mathematical values.
pub enum FileChangeTypeView {
    Added,
    Modified,
    Deleted,
    Renamed { old_path: Seq<char> },
}

/// What a change holds, as mathematical values.
pub struct FileChangeView {
    pub path: Seq<char>,
    pub change_type: FileChangeTypeView,
}

impl View for FileChangeType {
    type V = FileChangeTypeView;

    open spec fn view(&self) -> FileChangeTypeView {
        match self {
            FileChangeType::Added => FileChangeTypeView::Added,
            FileChangeType::Modified => FileChangeTypeView::Modified,
            FileChangeType::Deleted => FileChangeTypeView::Deleted,
            FileChangeType::Renamed { old_path } => FileChangeTypeView::Renamed {
                old_path: old_path@,
            },
        }
    }
}

impl View for FileChange {
    type V = FileChangeView;

    open spec fn view(&self) -> FileChangeView {
        FileChangeView { path: self.path@, change_type: self.change_type@ }
    }
}

/// The views of a list of changes, in order.
pub open spec fn change_views(changes: Seq<FileChange>) -> Seq<FileChangeView> {
    changes.map_values(|c: FileChange| c@)
}

/// The change that one line of a name-status diff reports. The columns of
/// a line are parted by tabs; the first is the status. A status that begins
/// with `A`, `M` or `D` reports the path in the second column as added,
/// modified or deleted. One that begins with `R` reports a rename from the
/// second column to the third. A line with fewer columns than that, or with
/// another status, reports nothing.
pub open spec fn change_of_line(line: Seq<char>) -> Option<FileChangeView> {
    let columns = split_on(line, '\t');
    if columns.len() < 2 || columns[0].len() == 0 {
        None
    } else if columns[0][0] == 'A' {
        Some(FileChangeView { path: columns[1], change_type: FileChangeTypeView::Added })
    } else if columns[0][0] == 'M' {
        Some(FileChangeView { path: columns[1], change_type: FileChangeTypeView::Modified })
    } else if columns[0][0] == 'D' {
        Some(FileChangeView { path: columns[1], change_type: FileChangeTypeView::Deleted })
    } else if columns[0][0] == 'R' && columns.len() >= 3 {
        Some(
            FileChangeView {
                path: columns[2],
                change_type: FileChangeTypeView::Renamed { old_path: columns[1] },
            },
        )
    } else {
        None
    }
}

/// The changes that the given lines report, in order.
pub open spec fn changes_of_lines(lines: Seq<Seq<char>>) -> Seq<FileChangeView>
    decreases lines.len(),
{
    if lines.len() == 0 {
        Seq::empty()
    } else {
        let before = changes_of_lines(lines.drop_last());
        match change_of_line(lines.last()) {
            Some(change) => before.push(change),
            None => before,
        }
    }
}

/// The changes that a name-status diff reports, in order.
pub open spec fn changes_of(output: Seq<char>) -> Seq<FileChangeView> {
    changes_of_lines(lines_of(output))
}

/// Reads one line of a name-status diff.
pub fn parse_status_line(line: &str) -> (change: Option<FileChange>)
    ensures
        match change {
            Some(c) => change_of_line(line@) == Some(c@),
            None => change_of_line(line@) is None,
        },
{
    let columns = split_text(line, '\t');
    assert(forall|i: int| 0 <= i < columns@.len() ==> texts(columns@)[i] == columns@[i]@);
    if columns.len() < 2 || columns[0].as_str().is_empty() {
        return None;
    }
    let status = columns[0].as_str().get_char(0);
    if status == 'A' {
        Some(FileChange { path: columns[1].clone(), change_type: FileChangeType::Added })
    } else if status == 'M' {
        Some(FileChange { path: columns[1].clone(), change_type: FileChangeType::Modified })
    } else if status == 'D' {
        Some(FileChange { path: columns[1].clone(), change_type: FileChangeType::Deleted })
    } else if status == 'R' && columns.len() >= 3 {
        Some(
            FileChange {
                path: columns[2].clone(),
                change_type: FileChangeType::Renamed { old_path: columns[1].clone() },
            },
        )
    } else {
        None
    }
}

/// Reads the output of `git diff --name-status`. The paths are those that
/// the output holds: relative to the root of the repository.
pub fn parse_name_status(output: &str) -> (changes: Vec<FileChange>)
    ensures
        change_views(changes@) == changes_of(output@),
{
    let lines = split_lines(output);
    let ghost all = texts(lines@);
    let mut changes: Vec<FileChange> = Vec::new();
    let n = lines.len();
    let mut i: usize = 0;
    assert(change_views(changes@) =~= changes_of_lines(all.take(0)));
    while i < n
        invariant
            n == lines@.len(),
            i <= n,
            all == texts(lines@),
            change_views(changes@) == changes_of_lines(all.take(i as int)),
        decreases n - i,
    {
        proof {
            assert(all.take(i as int + 1).drop_last() =~= all.take(i as int));
            assert(all.take(i as int + 1).last() == lines@[i as int]@);
        }
        let ghost before = changes@;
        match parse_status_line(lines[i].as_str()) {
            Some(change) => {
                changes.push(change);
                assert(change_views(changes@) =~= change_views(before).push(change@));
            },
            None => {},
        }
        i = i + 1;
    }
    assert(all.take(n as int) =~= all);
    changes
}

/// The paths of a list of changes, in order.
pub open spec fn changed_paths(changes: Seq<FileChangeView>) -> Seq<Seq<char>> {
    changes.map_values(|c: FileChangeView| c.path)
}

/// The paths of the changed files, without what happened to them.
pub fn get_changed_files(changes: &Vec<FileChange>) -> (paths: Vec<String>)
    ensures
        texts(paths@) == changed_paths(change_views(changes@)),
{
    let mut paths: Vec<String> = Vec::new();
    let n = changes.len();
    let mut i: usize = 0;
    while i < n
        invariant
            n == changes@.len(),
            i <= n,
            paths@.len() == i,
            forall|j: int| 0 <= j < i ==> (#[trigger] paths@[j])@ == changes@[j].path@,
        decreases n - i,
    {
        paths.push(changes[i].path.clone());
        i = i + 1;
    }
    assert(texts(paths@) =~= changed_paths(change_views(changes@)));
    paths
}

/// The arguments of the `git` call that prints the current revision of the
/// repository at `repo_path`.
pub open spec fn revision_arguments(repo_path: Seq<char>) -> Seq<Seq<char>> {
    seq!["-C"@, repo_path, "rev-parse"@, "HEAD"@]
}

/// The arguments of the `git` call that succeeds exactly inside a
/// repository.
pub open spec fn probe_arguments(path: Seq<char>) -> Seq<Seq<char>> {
    seq!["-C"@, path, "rev-parse"@, "--git-dir"@]
}

/// The arguments of the `git` call that prints the name-status diff from
/// one revision to another.
pub open spec fn diff_arguments(
    repo_path: Seq<char>,
    from_commit: Seq<char>,
    to_commit: Seq<char>,
) -> Seq<Seq<char>> {
    seq!["-C"@, repo_path, "diff"@, "--name-status"@, from_commit + ".."@ + to_commit]
}

/// Arguments for `git`: the current revision.
pub fn current_commit_command(repo_path: &str) -> (args: Vec<String>)
    ensures
        texts(args@) == revision_arguments(repo_path@),
{
    let mut args: Vec<String> = Vec::new();
    args.push("-C".to_owned());
    args.push(repo_path.to_owned());
    args.push("rev-parse".to_owned());
    args.push("HEAD".to_owned());
    assert(texts(args@) =~= revision_arguments(repo_path@));
    args
}

/// Arguments for `git`: whether a path lies in a repository.
pub fn is_repository_command(path: &str) -> (args: Vec<String>)
    ensures
        texts(args@) == probe_arguments(path@),
{
    let mut args: Vec<String> = Vec::new();
    args.push("-C".to_owned());
    args.push(path.to_owned());
    args.push("rev-parse".to_owned());
    args.push("--git-dir".to_owned());
    assert(texts(args@) =~= probe_arguments(path@));
    args
}

/// Arguments for `git`: the files changed from one revision to another.
pub fn file_changes_command(repo_path: &str, from_commit: &str, to_commit: &str) -> (args: Vec<
    String,
>)
    ensures
        texts(args@) == diff_arguments(repo_path@, from_commit@, to_commit@),
{
    let mut range = String::new();
    range.append(from_commit);
    range.append("..");
    range.append(to_commit);
    assert(range@ =~= from_commit@ + ".."@ + to_commit@);
    let mut args: Vec<String> = Vec::new();
    args.push("-C".to_owned());
    args.push(repo_path.to_owned());
    args.push("diff".to_owned());
    args.push("--name-status".to_owned());
    args.push(range);
    assert(texts(args@) =~= diff_arguments(repo_path@, from_commit@, to_commit@));
    args
}

/// Whether `res` is the failure of the version-control probe with the
/// cause `label` followed by `detail`.
pub open spec fn vcs_failure<T>(res: Result<T, Error>, label: Seq<char>, detail: Seq<char>) -> bool {
    res matches Err(Error::Vcs(cause)) && cause@ == label + detail
}

fn vcs_error(label: &str, detail: &str) -> (e: Error)
    ensures
        e matches Error::Vcs(cause) && cause@ == label@ + detail@,
{
    let mut cause = String::new();
    cause.append(label);
    cause.append(detail);
    assert(cause@ =~= label@ + detail@);
    Error::Vcs(cause)
}

/// Reads what `git rev-parse HEAD` answered. Where the call succeeded,
/// the revision is what it printed, without the white space around it.
/// Where it failed, which it does outside a repository and in one without a
/// commit, the failure carries what it wrote to its error stream.
pub fn current_commit_from(succeeded: bool, stdout: &str, stderr: &str) -> (res: Result<
    String,
    Error,
>)
    ensures
        if succeeded {
            res matches Ok(commit) && commit@ == trimmed(stdout@)
        } else {
            vcs_failure(res, "Failed to get git commit: "@, stderr@)
        },
{
    if succeeded {
        Ok(trim_text(stdout).to_owned())
    } else {
        Err(vcs_error("Failed to get git commit: ", stderr))
    }
}

/// Reads what `git diff --name-status` answered. Where the call
/// succeeded, the changes are those that its output reports. Where it
/// failed, which it does for a revision that the repository does not hold,
/// the failure carries what it wrote to its error stream.
pub fn file_changes_from(succeeded: bool, stdout: &str, stderr: &str) -> (res: Result<
    Vec<FileChange>,
    Error,
>)
    ensures
        if succeeded {
            res matches Ok(changes) && change_views(changes@) == changes_of(stdout@)
        } else {
            vcs_failure(res, "Failed to get changed files: "@, stderr@)
        },
{
    if succeeded {
        Ok(parse_name_status(stdout))
    } else {
        Err(vcs_error("Failed to get changed files: ", stderr))
    }
}

} // verus!
