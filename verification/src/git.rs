//! The git panel: which git commands are run, and what their output says.
use crate::bytes::{byte_len, byte_slice, encode_concat, is_on_boundary, on_boundary, slice_between_characters, slice_bytes};
use crate::number::{debug_code, debug_code_of, decimal, decimal_has_no_leading_zero, decimal_of, decimal_reads_back, parse_signed, signed_decimal, signed_decimal_reads_back, signed_number};
use crate::outside::{text_from_utf8_lossy, utf8_lossy};
use crate::sort::{arranged, is_order, is_sorted_list, sort_order, sorting_loses_nothing, SortKey};
use crate::text::{after_prefix, after_prefix_is_the_rest, before_first, before_first_is_in_front, before_first_of_all, chars_of, cut_before, ends_with, has_prefix, has_suffix, join, joined, joined_splits_back, lacks, last_chars, lines, lines_of, occurs_at, piece, piece_or, pieces, split, split_at_separator, split_of_one_part, split_on, starts_with, str_eq, string_of, strip_leading, strip_prefix, strip_prefixes, strip_trailing, stripping_takes_all, tail_of, trim, trim_str, trimmed, trimmed_is_the_middle, trimmed_stays, white, without_leading, without_prefixes, without_prefixes_takes_one, without_trailing};
use vstd::prelude::*;
use vstd::utf8::encode_utf8;

verus! {

// ---------------------------------------------------------------------------
// Running git
// ---------------------------------------------------------------------------

/// What git is asked to do.
pub enum GitTask {
    /// The branch and all changes.
    Status,
    /// The changes under one path.
    PathStatus { path: String },
    /// All changes.
    Changes,
    Add { paths: Vec<String> },
    Unstage { paths: Vec<String> },
    /// Take back the changes to one path.
    Restore { path: String },
    Commit { text: String },
    Push,
    Pull,
    Diff { path: String, staged: bool },
    Init,
    Branches,
    CreateBranch { name: String },
    /// Whether there is a local branch of this name.
    FindBranch { name: String },
    Switch { name: String },
    /// Create a local branch that follows a remote one.
    Track { local: String, remote: String },
    Log { max: usize },
    CommitFiles { hash: String },
    CommitDiff { hash: String },
    Revert { hash: String },
    Fetch,
    StashList,
    StashPush { message: Option<String> },
    StashPop,
    /// Whether there is a commit.
    FindHead,
    Amend { message: Option<String> },
    UndoCommit,
    DeleteBranch { name: String, force: bool },
    Merge { name: String },
}

/// The format in which the branches are listed: fields with a NUL between them.
pub open spec fn branch_format() -> Seq<char> {
    "--format=%(refname)%00%(HEAD)%00%(upstream:short)%00%(committerdate:unix)%00%(authorname)%00%(objectname:short)%00%(contents:subject)"@
}

/// The format in which the commits are listed: fields with a unit separator between them.
pub open spec fn log_format() -> Seq<char> {
    "--pretty=format:%H\u{1f}%h\u{1f}%an\u{1f}%at\u{1f}%s\u{1f}%D"@
}

/// The arguments with which git is run for a task.
pub open spec fn args_of(task: GitTask) -> Seq<Seq<char>> {
    match task {
        GitTask::Status => seq!["status"@, "--porcelain"@, "-z"@, "--branch"@],
        GitTask::PathStatus { path } => seq!["status"@, "--porcelain"@, "-z"@, "--"@, path@],
        GitTask::Changes => seq!["status"@, "--porcelain"@],
        GitTask::Add { paths } => seq!["add"@, "--"@] + paths.deep_view(),
        GitTask::Unstage { paths } => seq!["reset"@, "HEAD"@, "--"@] + paths.deep_view(),
        GitTask::Restore { path } => seq!["checkout"@, "--"@, path@],
        GitTask::Commit { text } => seq!["commit"@, "-m"@, text@],
        GitTask::Push => seq!["push"@],
        GitTask::Pull => seq!["pull"@],
        GitTask::Diff { path, staged } => if staged {
            seq!["diff"@, "--no-color"@, "--cached"@, "--"@, path@]
        } else {
            seq!["diff"@, "--no-color"@, "--"@, path@]
        },
        GitTask::Init => seq!["init"@],
        GitTask::Branches => seq![
            "for-each-ref"@,
            branch_format(),
            "refs/heads"@,
            "refs/remotes"@,
        ],
        GitTask::CreateBranch { name } => seq!["checkout"@, "-b"@, name@],
        GitTask::FindBranch { name } => seq![
            "show-ref"@,
            "--verify"@,
            "--quiet"@,
            "refs/heads/"@ + name@,
        ],
        GitTask::Switch { name } => seq!["checkout"@, name@],
        GitTask::Track { local, remote } => seq!["checkout"@, "-b"@, local@, "--track"@, remote@],
        GitTask::Log { max } => seq!["log"@, log_format(), "--max-count="@ + decimal(max as nat)],
        GitTask::CommitFiles { hash } => seq!["show"@, "--name-status"@, "--format="@, hash@],
        GitTask::CommitDiff { hash } => seq!["show"@, "--no-color"@, "--format="@, hash@],
        GitTask::Revert { hash } => seq!["revert"@, "--no-edit"@, hash@],
        GitTask::Fetch => seq!["fetch"@, "--all"@, "--prune"@],
        GitTask::StashList => seq!["stash"@, "list"@, "--format=%gd%x00%at%x00%gs"@],
        GitTask::StashPush { message } => match message {
            Some(text) => seq!["stash"@, "push"@, "-u"@, "-m"@, text@],
            None => seq!["stash"@, "push"@, "-u"@],
        },
        GitTask::StashPop => seq!["stash"@, "pop"@],
        GitTask::FindHead => seq!["rev-parse"@, "--verify"@, "--quiet"@, "HEAD"@],
        GitTask::Amend { message } => match message {
            Some(text) => seq!["commit"@, "--amend"@, "-m"@, text@],
            None => seq!["commit"@, "--amend"@, "--no-edit"@],
        },
        GitTask::UndoCommit => seq!["reset"@, "--soft"@, "HEAD~1"@],
        GitTask::DeleteBranch { name, force } => if force {
            seq!["branch"@, "-D"@, name@]
        } else {
            seq!["branch"@, "-d"@, name@]
        },
        GitTask::Merge { name } => seq!["merge"@, name@],
    }
}

fn words(list: &[&str]) -> (args: Vec<String>)
    ensures
        args.deep_view() == Seq::new(list@.len(), |i: int| list@[i]@),
{
    let mut args: Vec<String> = Vec::new();
    let mut i: usize = 0;
    while i < list.len()
        invariant
            i <= list@.len(),
            args@.len() == i,
            forall|k: int| 0 <= k < i ==> #[trigger] args.deep_view()[k] == list@[k]@,
        decreases list@.len() - i,
    {
        let ghost before = args.deep_view();
        let word = list[i].to_string();
        args.push(word);
        assert(args.deep_view() == before.push(word@));
        i = i + 1;
    }
    assert(args.deep_view() == Seq::new(list@.len(), |i: int| list@[i]@));
    args
}

fn with_paths(head: Vec<String>, paths: &Vec<String>) -> (args: Vec<String>)
    ensures
        args.deep_view() == head.deep_view() + paths.deep_view(),
{
    let ghost front = head.deep_view();
    let ghost tail = paths.deep_view();
    let mut args = head;
    let mut i: usize = 0;
    while i < paths.len()
        invariant
            i <= paths@.len(),
            tail == paths.deep_view(),
            args.deep_view() == front + tail.subrange(0, i as int),
        decreases paths@.len() - i,
    {
        let ghost before = args.deep_view();
        let path = paths[i].clone();
        args.push(path);
        assert(args.deep_view() == before.push(tail[i as int]));
        assert(before.push(tail[i as int]) == front + tail.subrange(0, i + 1));
        i = i + 1;
    }
    assert(tail.subrange(0, tail.len() as int) == tail);
    args
}

impl GitTask {
    /// The arguments with which git is run.
    pub fn args(&self) -> (args: Vec<String>)
        ensures
            args.deep_view() == args_of(*self),
    {
        match self {
            GitTask::Status => words(&["status", "--porcelain", "-z", "--branch"]),
            GitTask::PathStatus { path } => words(
                &["status", "--porcelain", "-z", "--", path.as_str()],
            ),
            GitTask::Changes => words(&["status", "--porcelain"]),
            GitTask::Add { paths } => with_paths(words(&["add", "--"]), paths),
            GitTask::Unstage { paths } => with_paths(words(&["reset", "HEAD", "--"]), paths),
            GitTask::Restore { path } => words(&["checkout", "--", path.as_str()]),
            GitTask::Commit { text } => words(&["commit", "-m", text.as_str()]),
            GitTask::Push => words(&["push"]),
            GitTask::Pull => words(&["pull"]),
            GitTask::Diff { path, staged } => if *staged {
                words(&["diff", "--no-color", "--cached", "--", path.as_str()])
            } else {
                words(&["diff", "--no-color", "--", path.as_str()])
            },
            GitTask::Init => words(&["init"]),
            GitTask::Branches => words(
                &[
                    "for-each-ref",
                    "--format=%(refname)%00%(HEAD)%00%(upstream:short)%00%(committerdate:unix)%00%(authorname)%00%(objectname:short)%00%(contents:subject)",
                    "refs/heads",
                    "refs/remotes",
                ],
            ),
            GitTask::CreateBranch { name } => words(&["checkout", "-b", name.as_str()]),
            GitTask::FindBranch { name } => {
                let mut full = "refs/heads/".to_string();
                full.append(name.as_str());
                words(&["show-ref", "--verify", "--quiet", full.as_str()])
            },
            GitTask::Switch { name } => words(&["checkout", name.as_str()]),
            GitTask::Track { local, remote } => words(
                &["checkout", "-b", local.as_str(), "--track", remote.as_str()],
            ),
            GitTask::Log { max } => {
                let mut limit = "--max-count=".to_string();
                limit.append(decimal_of(*max as u64).as_str());
                words(
                    &[
                        "log",
                        "--pretty=format:%H\u{1f}%h\u{1f}%an\u{1f}%at\u{1f}%s\u{1f}%D",
                        limit.as_str(),
                    ],
                )
            },
            GitTask::CommitFiles { hash } => words(
                &["show", "--name-status", "--format=", hash.as_str()],
            ),
            GitTask::CommitDiff { hash } => words(
                &["show", "--no-color", "--format=", hash.as_str()],
            ),
            GitTask::Revert { hash } => words(&["revert", "--no-edit", hash.as_str()]),
            GitTask::Fetch => words(&["fetch", "--all", "--prune"]),
            GitTask::StashList => words(&["stash", "list", "--format=%gd%x00%at%x00%gs"]),
            GitTask::StashPush { message } => match message {
                Some(text) => words(&["stash", "push", "-u", "-m", text.as_str()]),
                None => words(&["stash", "push", "-u"]),
            },
            GitTask::StashPop => words(&["stash", "pop"]),
            GitTask::FindHead => words(&["rev-parse", "--verify", "--quiet", "HEAD"]),
            GitTask::Amend { message } => match message {
                Some(text) => words(&["commit", "--amend", "-m", text.as_str()]),
                None => words(&["commit", "--amend", "--no-edit"]),
            },
            GitTask::UndoCommit => words(&["reset", "--soft", "HEAD~1"]),
            GitTask::DeleteBranch { name, force } => if *force {
                words(&["branch", "-D", name.as_str()])
            } else {
                words(&["branch", "-d", name.as_str()])
            },
            GitTask::Merge { name } => words(&["merge", name.as_str()]),
        }
    }
}

/// The error for a git that could not be run.
pub fn run_error(not_found: bool, reason: &str) -> (error: String)
    ensures
        error@ == (if not_found {
            "未检测到 git 命令。请安装 Git（macOS: xcode-select --install / Windows: Git for Windows）后重试。"@
        } else {
            "执行 git 失败："@ + reason@
        }),
{
    if not_found {
        "未检测到 git 命令。请安装 Git（macOS: xcode-select --install / Windows: Git for Windows）后重试。".to_string()
    } else {
        let mut error = "执行 git 失败：".to_string();
        error.append(reason);
        error
    }
}

/// The error for a git that failed: the end of what it complained of, or the command itself where
/// it said nothing.
pub open spec fn failure_text(
    stderr: Seq<char>,
    args: Seq<Seq<char>>,
    code: Option<i32>,
) -> Seq<char> {
    let said = trimmed(stderr);
    if said.len() == 0 {
        "git "@ + joined(args, " "@) + " 失败（exit "@ + debug_code(code) + "）"@
    } else if encode_utf8(said).len() > 600 {
        last_chars(said, 600) + "…"@
    } else {
        said
    }
}

/// The error for a git that failed.
pub fn failure(stderr: &str, args: &Vec<String>, code: Option<i32>) -> (error: String)
    ensures
        error@ == failure_text(stderr@, args.deep_view(), code),
{
    let said = trim_str(stderr);
    if said.as_str().is_empty() {
        let mut error = "git ".to_string();
        error.append(join(args, " ").as_str());
        error.append(" 失败（exit ");
        error.append(debug_code_of(code).as_str());
        error.append("）");
        error
    } else if byte_len(said.as_str()) > 600 {
        let mut error = tail_of(said.as_str(), 600);
        error.append("…");
        error
    } else {
        said
    }
}

/// The outcome of a run of git: what it printed, or the error.
pub fn git(args: &Vec<String>, success: bool, code: Option<i32>, stdout: &[u8], stderr: &[u8]) -> (
    outcome: Result<String, String>)
    ensures
        if success {
            outcome matches Ok(text) && text@ == utf8_lossy(stdout@)
        } else {
            outcome matches Err(e) && e@ == failure_text(
                utf8_lossy(stderr@),
                args.deep_view(),
                code,
            )
        },
{
    if success {
        Ok(text_from_utf8_lossy(stdout))
    } else {
        Err(failure(text_from_utf8_lossy(stderr).as_str(), args, code))
    }
}

// ---------------------------------------------------------------------------
// Which task to run
// ---------------------------------------------------------------------------

/// Accepts a directory only where it is a repository.
pub fn require_repo(is_repo: bool) -> (accepted: Result<(), String>)
    ensures
        if is_repo {
            accepted == Ok::<(), String>(())
        } else {
            accepted matches Err(e) && e@ == "当前目录不是 git 仓库"@
        },
{
    if is_repo {
        Ok(())
    } else {
        Err("当前目录不是 git 仓库".to_string())
    }
}

/// The task for a commit: its message is trimmed, and must not be empty then.
pub fn git_commit(message: &str) -> (task: Result<GitTask, String>)
    ensures
        if trimmed(message@).len() == 0 {
            task matches Err(e) && e@ == "提交信息不能为空"@
        } else {
            task matches Ok(GitTask::Commit { text }) && text@ == trimmed(message@)
        },
{
    let text = trim_str(message);
    if text.as_str().is_empty() {
        Err("提交信息不能为空".to_string())
    } else {
        Ok(GitTask::Commit { text })
    }
}

/// The task that turns a directory into a repository, where it is none.
pub fn git_init(is_repo: bool) -> (task: Option<GitTask>)
    ensures
        task == (if is_repo {
            None
        } else {
            Some(GitTask::Init)
        }),
{
    if is_repo {
        None
    } else {
        Some(GitTask::Init)
    }
}

/// How a change is taken back.
pub enum DiscardPlan {
    /// The file is unknown to git: it is removed.
    Remove,
    /// Git restores it.
    Run(GitTask),
}

/// Whether some status output tells of an unknown file.
pub open spec fn untracked(raw: Seq<char>) -> bool {
    exists|i: int|
        0 <= i < split(raw, '\0').len() && has_prefix(#[trigger] split(raw, '\0')[i], "??"@)
}

/// How the change to a path is taken back, by the status output for it.
pub fn git_discard(raw: &str, path: &str) -> (plan: DiscardPlan)
    ensures
        if untracked(raw@) {
            plan is Remove
        } else {
            plan matches DiscardPlan::Run(GitTask::Restore { path: p }) && p@ == path@
        },
{
    let records = split_on(&chars_of(raw), '\0');
    let mut i: usize = 0;
    while i < records.len()
        invariant
            i <= records@.len(),
            pieces(records@) == split(raw@, '\0'),
            forall|k: int|
                0 <= k < i ==> !has_prefix(#[trigger] split(raw@, '\0')[k], "??"@),
        decreases records@.len() - i,
    {
        assert(pieces(records@)[i as int] == records@[i as int]@);
        if starts_with(&records[i], "??") {
            return DiscardPlan::Remove;
        }
        i = i + 1;
    }
    DiscardPlan::Run(GitTask::Restore { path: path.to_string() })
}

/// How to change to a branch.
pub enum CheckoutPlan {
    /// One run of git does it.
    Run(GitTask),
    /// It is a remote branch: whether there is a local one of that name decides.
    Remote { local: String, remote: String },
}

/// Whether `plan` is how to change to a branch, or create it: its name is trimmed, and must not be
/// empty then, nor stand for the head of the remote.
pub open spec fn is_checkout_plan(
    branch: Seq<char>,
    new_branch: bool,
    plan: Result<CheckoutPlan, String>,
) -> bool {
    let name = trimmed(branch);
    if name.len() == 0 {
        plan matches Err(e) && e@ == "分支名不能为空"@
    } else if new_branch {
        plan matches Ok(CheckoutPlan::Run(GitTask::CreateBranch { name: n })) && n@ == name
    } else {
        match after_prefix(name, "origin/"@) {
            Some(rest) => if rest.len() == 0 || rest == "HEAD"@ {
                plan matches Err(e) && e@ == "无法切换到 "@ + name
            } else {
                plan matches Ok(CheckoutPlan::Remote { local, remote }) && local@ == rest
                    && remote@ == name
            },
            None => plan matches Ok(CheckoutPlan::Run(GitTask::Switch { name: n })) && n@ == name,
        }
    }
}

/// How to change to a branch, or create it.
pub fn git_checkout(branch: &str, new_branch: bool) -> (plan: Result<CheckoutPlan, String>)
    ensures
        is_checkout_plan(branch@, new_branch, plan),
{
    let name = trim(&chars_of(branch));
    if name.len() == 0 {
        return Err("分支名不能为空".to_string());
    }
    if new_branch {
        return Ok(CheckoutPlan::Run(GitTask::CreateBranch { name: string_of(&name) }));
    }
    match strip_prefix(&name, "origin/") {
        Some(rest) => {
            let local = string_of(&rest);
            if rest.len() == 0 || str_eq(local.as_str(), "HEAD") {
                let mut error = "无法切换到 ".to_string();
                error.append(string_of(&name).as_str());
                return Err(error);
            }
            Ok(CheckoutPlan::Remote { local, remote: string_of(&name) })
        },
        None => Ok(CheckoutPlan::Run(GitTask::Switch { name: string_of(&name) })),
    }
}

/// The task that changes to a remote branch without leaving all branches: to the local branch of
/// its name where there is one, else to a new one that follows it.
pub open spec fn remote_task(local: String, remote: String, has_local: bool) -> GitTask {
    if has_local {
        GitTask::Switch { name: local }
    } else {
        GitTask::Track { local, remote }
    }
}

/// The task that changes to a remote branch without leaving all branches.
pub fn checkout_remote(local: String, remote: String, has_local: bool) -> (task: GitTask)
    ensures
        task == remote_task(local, remote, has_local),
{
    if has_local {
        GitTask::Switch { name: local }
    } else {
        GitTask::Track { local, remote }
    }
}

/// The task that lists the latest commits: fifty where nothing is said, at least one and at most
/// five hundred.
pub fn git_log(max: Option<usize>) -> (task: GitTask)
    ensures
        task == (GitTask::Log {
            max: match max {
                None => 50,
                Some(n) => if n < 1 {
                    1
                } else if n > 500 {
                    500
                } else {
                    n
                },
            },
        }),
{
    let limit: usize = match max {
        None => 50,
        Some(n) => if n < 1 {
            1
        } else if n > 500 {
            500
        } else {
            n
        },
    };
    GitTask::Log { max: limit }
}

/// A message, trimmed, where there is anything left of it.
pub open spec fn message_of(message: Option<Seq<char>>) -> Option<Seq<char>> {
    match message {
        Some(text) if trimmed(text).len() > 0 => Some(trimmed(text)),
        _ => None,
    }
}

fn trimmed_message(message: Option<&str>) -> (text: Option<String>)
    ensures
        text.deep_view() == message_of(message.deep_view()),
{
    match message {
        Some(given) => {
            let text = trim_str(given);
            if text.as_str().is_empty() {
                None
            } else {
                Some(text)
            }
        },
        None => None,
    }
}

/// The task that puts the changes aside, by the list of changes.
pub fn git_stash_push(changes: &str, message: Option<&str>) -> (task: Result<GitTask, String>)
    ensures
        if trimmed(changes@).len() == 0 {
            task matches Err(e) && e@ == "没有可贮藏的更改"@
        } else {
            task matches Ok(GitTask::StashPush { message: text }) && text.deep_view()
                == message_of(message.deep_view())
        },
{
    if trim_str(changes).as_str().is_empty() {
        Err("没有可贮藏的更改".to_string())
    } else {
        Ok(GitTask::StashPush { message: trimmed_message(message) })
    }
}

/// The task that amends the last commit, where there is one.
pub fn git_commit_amend(has_head: bool, message: Option<&str>) -> (task: Result<GitTask, String>)
    ensures
        if !has_head {
            task matches Err(e) && e@ == "还没有可修正的提交"@
        } else {
            task matches Ok(GitTask::Amend { message: text }) && text.deep_view() == message_of(
                message.deep_view(),
            )
        },
{
    if !has_head {
        Err("还没有可修正的提交".to_string())
    } else {
        Ok(GitTask::Amend { message: trimmed_message(message) })
    }
}

/// The task that takes back the last commit, where there is one.
pub fn git_undo_commit(has_head: bool) -> (task: Result<GitTask, String>)
    ensures
        if !has_head {
            task matches Err(e) && e@ == "还没有可撤销的提交"@
        } else {
            task == Ok::<GitTask, String>(GitTask::UndoCommit)
        },
{
    if !has_head {
        Err("还没有可撤销的提交".to_string())
    } else {
        Ok(GitTask::UndoCommit)
    }
}

/// The task that deletes a branch; its name is trimmed, and must not be empty then.
pub fn git_branch_delete(branch: &str, force: bool) -> (task: Result<GitTask, String>)
    ensures
        if trimmed(branch@).len() == 0 {
            task matches Err(e) && e@ == "分支名不能为空"@
        } else {
            task matches Ok(GitTask::DeleteBranch { name, force: f }) && name@ == trimmed(branch@)
                && f == force
        },
{
    let name = trim_str(branch);
    if name.as_str().is_empty() {
        Err("分支名不能为空".to_string())
    } else {
        Ok(GitTask::DeleteBranch { name, force })
    }
}

/// The task that merges a branch; its name is trimmed, and must not be empty then.
pub fn git_merge(branch: &str) -> (task: Result<GitTask, String>)
    ensures
        if trimmed(branch@).len() == 0 {
            task matches Err(e) && e@ == "分支名不能为空"@
        } else {
            task matches Ok(GitTask::Merge { name }) && name@ == trimmed(branch@)
        },
{
    let name = trim_str(branch);
    if name.as_str().is_empty() {
        Err("分支名不能为空".to_string())
    } else {
        Ok(GitTask::Merge { name })
    }
}

// ---------------------------------------------------------------------------
// Status
// ---------------------------------------------------------------------------

/// A change to one path.
pub struct GitChange {
    pub path: String,
    pub status: String,
    pub staged: bool,
}

/// The mathematical value of a [`GitChange`].
pub struct GitChangeView {
    pub path: Seq<char>,
    pub status: Seq<char>,
    pub staged: bool,
}

impl DeepView for GitChange {
    type V = GitChangeView;

    open spec fn deep_view(&self) -> GitChangeView {
        GitChangeView { path: self.path@, status: self.status@, staged: self.staged }
    }
}

/// The branch and the changes of a repository.
pub struct GitStatus {
    pub branch: String,
    pub ahead: usize,
    pub behind: usize,
    pub staged: Vec<GitChange>,
    pub unstaged: Vec<GitChange>,
}

/// The mathematical value of a [`GitStatus`].
pub struct GitStatusView {
    pub branch: Seq<char>,
    pub ahead: usize,
    pub behind: usize,
    pub staged: Seq<GitChangeView>,
    pub unstaged: Seq<GitChangeView>,
}

impl DeepView for GitStatus {
    type V = GitStatusView;

    open spec fn deep_view(&self) -> GitStatusView {
        GitStatusView {
            branch: self.branch@,
            ahead: self.ahead,
            behind: self.behind,
            staged: self.staged.deep_view(),
            unstaged: self.unstaged.deep_view(),
        }
    }
}

/// The branch that the head record names: what stands in front of its upstream, also where there
/// is no commit yet.
pub open spec fn branch_named(head: Seq<char>) -> Seq<char> {
    without_prefixes(before_first(head, "..."@), "No commits yet on "@)
}

/// Whether a record tells of a change: it is no head record, and long enough.
pub open spec fn is_change(record: Seq<char>) -> bool {
    !has_prefix(record, "## "@) && encode_utf8(record).len() >= 4
}

/// Whether the path can be cut out of a record of a change: two state bytes and a space stand in
/// front of it.
pub open spec fn has_path(record: Seq<char>) -> bool {
    on_boundary(record, 3)
}

/// The path in a record of a change, without quotes around it.
pub open spec fn path_in(record: Seq<char>) -> Seq<char> {
    without_trailing(
        without_leading(byte_slice(record, 3, encode_utf8(record).len() as int), '"'),
        '"',
    )
}

/// The state of the index in a record of a change.
pub open spec fn index_state(record: Seq<char>) -> char {
    encode_utf8(record)[0] as char
}

/// The state of the working tree in a record of a change.
pub open spec fn tree_state(record: Seq<char>) -> char {
    encode_utf8(record)[1] as char
}

/// The status with one record more. A change counts as staged where the index differs, and as not
/// staged where the working tree differs or the file is unknown.
pub open spec fn record_taken(status: GitStatusView, record: Seq<char>) -> GitStatusView {
    match after_prefix(record, "## "@) {
        Some(head) => GitStatusView { branch: branch_named(head), ..status },
        None => if encode_utf8(record).len() < 4 {
            status
        } else {
            let x = index_state(record);
            let y = tree_state(record);
            let path = path_in(record);
            GitStatusView {
                staged: if x != '?' && x != ' ' {
                    status.staged.push(GitChangeView { path, status: seq![x], staged: true })
                } else {
                    status.staged
                },
                unstaged: if x == '?' {
                    status.unstaged.push(GitChangeView { path, status: seq![x], staged: false })
                } else if y != ' ' {
                    status.unstaged.push(GitChangeView { path, status: seq![y], staged: false })
                } else {
                    status.unstaged
                },
                ..status
            }
        },
    }
}

/// The status that the first `n` records tell.
pub open spec fn status_told(records: Seq<Seq<char>>, n: int) -> GitStatusView
    decreases n,
{
    if n <= 0 {
        GitStatusView {
            branch: "HEAD"@,
            ahead: 0,
            behind: 0,
            staged: seq![],
            unstaged: seq![],
        }
    } else {
        record_taken(status_told(records, n - 1), records[n - 1])
    }
}

/// Whether every record of a change has a path.
pub open spec fn status_readable(records: Seq<Seq<char>>) -> bool {
    forall|i: int|
        0 <= i < records.len() && is_change(#[trigger] records[i]) ==> has_path(records[i])
}

fn char_of_byte(b: u8) -> (c: char)
    ensures
        c == b as char,
{
    b as char
}

fn one_char(c: char) -> (text: String)
    ensures
        text@ == seq![c],
{
    let mut text = String::new();
    text.push(c);
    text
}

/// The end of a text is a boundary.
proof fn end_is_boundary(s: Seq<char>)
    ensures
        on_boundary(s, encode_utf8(s).len() as int),
{
    vstd::utf8::encode_utf8_valid_utf8(s);
    vstd::utf8::is_char_boundary_start_end_of_seq(encode_utf8(s));
}

fn take_change(status: &mut GitStatus, record: &Vec<char>) -> (taken: bool)
    requires
        is_change(record@),
    ensures
        taken == has_path(record@),
        taken ==> final(status).deep_view() == record_taken(old(status).deep_view(), record@),
{
    let ghost before = status.deep_view();
    let text = string_of(record);
    if !is_on_boundary(text.as_str(), 3) {
        return false;
    }
    let len: usize = byte_len(text.as_str());
    proof {
        end_is_boundary(text@);
    }
    let x = char_of_byte(text.as_str().as_bytes()[0]);
    let y = char_of_byte(text.as_str().as_bytes()[1]);
    let quoted = chars_of(slice_bytes(text.as_str(), 3, len).as_str());
    let path = strip_trailing(&strip_leading(&quoted, '"'), '"');
    if x != '?' && x != ' ' {
        let change = GitChange { path: string_of(&path), status: one_char(x), staged: true };
        status.staged.push(change);
        assert(status.staged.deep_view() == before.staged.push(change.deep_view()));
    }
    if x == '?' {
        let change = GitChange { path: string_of(&path), status: one_char(x), staged: false };
        status.unstaged.push(change);
        assert(status.unstaged.deep_view() == before.unstaged.push(change.deep_view()));
    } else if y != ' ' {
        let change = GitChange { path: string_of(&path), status: one_char(y), staged: false };
        status.unstaged.push(change);
        assert(status.unstaged.deep_view() == before.unstaged.push(change.deep_view()));
    }
    true
}

/// The branch and the changes that the status output tells: records with a NUL between them, one of
/// the branch and one for each change. The branch is "HEAD" where no record names it; the counts of
/// commits ahead and behind stay 0. There is no result where a record of a change has no path.
pub fn git_status(raw: &str) -> (status: Option<GitStatus>)
    ensures
        ({
            let records = split(raw@, '\0');
            status.deep_view() == (if status_readable(records) {
                Some(status_told(records, records.len() as int))
            } else {
                None
            })
        }),
{
    let records = split_on(&chars_of(raw), '\0');
    let ghost list = split(raw@, '\0');
    let mut status = GitStatus {
        branch: "HEAD".to_string(),
        ahead: 0,
        behind: 0,
        staged: Vec::new(),
        unstaged: Vec::new(),
    };
    assert(status.staged.deep_view() == Seq::<GitChangeView>::empty());
    assert(status.unstaged.deep_view() == Seq::<GitChangeView>::empty());
    let mut i: usize = 0;
    while i < records.len()
        invariant
            i <= records@.len(),
            list == pieces(records@),
            list == split(raw@, '\0'),
            status.deep_view() == status_told(list, i as int),
            forall|k: int| 0 <= k < i && is_change(#[trigger] list[k]) ==> has_path(list[k]),
        decreases records@.len() - i,
    {
        assert(list[i as int] == records@[i as int]@);
        match strip_prefix(&records[i], "## ") {
            Some(head) => {
                status.branch = string_of(
                    &strip_prefixes(&cut_before(&head, "..."), "No commits yet on "),
                );
            },
            None => {
                if byte_len(string_of(&records[i]).as_str()) >= 4 {
                    assert(is_change(list[i as int]));
                    if !take_change(&mut status, &records[i]) {
                        return None;
                    }
                }
            },
        }
        i = i + 1;
    }
    Some(status)
}

// ---------------------------------------------------------------------------
// Branches
// ---------------------------------------------------------------------------

/// A branch.
#[derive(Debug)]
pub struct GitBranch {
    pub name: String,
    /// "local" or "remote".
    pub kind: String,
    pub current: bool,
    pub upstream: String,
    pub time: i64,
    pub author: String,
    pub short: String,
    pub subject: String,
}

/// The mathematical value of a [`GitBranch`].
pub struct GitBranchView {
    pub name: Seq<char>,
    pub kind: Seq<char>,
    pub current: bool,
    pub upstream: Seq<char>,
    pub time: i64,
    pub author: Seq<char>,
    pub short: Seq<char>,
    pub subject: Seq<char>,
}

impl DeepView for GitBranch {
    type V = GitBranchView;

    open spec fn deep_view(&self) -> GitBranchView {
        GitBranchView {
            name: self.name@,
            kind: self.kind@,
            current: self.current,
            upstream: self.upstream@,
            time: self.time,
            author: self.author@,
            short: self.short@,
            subject: self.subject@,
        }
    }
}

/// The time that a field tells, or 0 where it is no number.
pub open spec fn time_of(field: Seq<char>) -> i64 {
    match signed_number(field) {
        Some(n) => n as i64,
        None => 0,
    }
}

fn parse_time(field: &Vec<char>) -> (time: i64)
    ensures
        time == time_of(field@),
{
    match parse_signed(field) {
        Some(n) => n,
        None => 0,
    }
}

/// The field with this number, trimmed, or nothing where there are fewer.
pub open spec fn field(parts: Seq<Seq<char>>, k: int) -> Seq<char> {
    trimmed(piece_or(parts, k, ""@))
}

fn take_field(parts: &Vec<Vec<char>>, k: usize) -> (text: Vec<char>)
    ensures
        text@ == field(pieces(parts@), k as int),
{
    trim(&piece(parts, k, ""))
}

/// The kind and the name of the branch that a full reference names.
pub open spec fn branch_name(refname: Seq<char>) -> Option<(Seq<char>, Seq<char>)> {
    match after_prefix(refname, "refs/heads/"@) {
        Some(name) => Some(("local"@, name)),
        None => match after_prefix(refname, "refs/remotes/"@) {
            Some(name) => Some(("remote"@, name)),
            None => None,
        },
    }
}

/// The branch on a line of the list of branches. The heads of remotes are passed over.
pub open spec fn branch_on(line: Seq<char>) -> Option<GitBranchView> {
    let text = without_trailing(line, '\0');
    let parts = split(text, '\0');
    if text.len() == 0 {
        None
    } else {
        match branch_name(field(parts, 0)) {
            Some((kind, name)) if !has_suffix(name, "/HEAD"@) => Some(
                GitBranchView {
                    name,
                    kind,
                    current: field(parts, 1) == "*"@,
                    upstream: field(parts, 2),
                    time: time_of(trimmed(piece_or(parts, 3, "0"@))),
                    author: field(parts, 4),
                    short: field(parts, 5),
                    subject: field(parts, 6),
                },
            ),
            _ => None,
        }
    }
}

/// The branch on a line of the list of branches.
pub fn parse_branch(line: &Vec<char>) -> (branch: Option<GitBranch>)
    ensures
        branch.deep_view() == branch_on(line@),
{
    let text = strip_trailing(line, '\0');
    if text.len() == 0 {
        return None;
    }
    let parts = split_on(&text, '\0');
    let refname = take_field(&parts, 0);
    let (kind, name) = match strip_prefix(&refname, "refs/heads/") {
        Some(name) => ("local", name),
        None => match strip_prefix(&refname, "refs/remotes/") {
            Some(name) => ("remote", name),
            None => {
                return None;
            },
        },
    };
    if ends_with(&name, "/HEAD") {
        return None;
    }
    Some(
        GitBranch {
            name: string_of(&name),
            kind: kind.to_string(),
            current: str_eq(string_of(&take_field(&parts, 1)).as_str(), "*"),
            upstream: string_of(&take_field(&parts, 2)),
            time: parse_time(&trim(&piece(&parts, 3, "0"))),
            author: string_of(&take_field(&parts, 4)),
            short: string_of(&take_field(&parts, 5)),
            subject: string_of(&take_field(&parts, 6)),
        },
    )
}

/// The branches on the first `n` of the lines.
pub open spec fn branches_on(list: Seq<Seq<char>>, n: int) -> Seq<GitBranchView>
    decreases n,
{
    if n <= 0 {
        seq![]
    } else {
        match branch_on(list[n - 1]) {
            Some(branch) => branches_on(list, n - 1).push(branch),
            None => branches_on(list, n - 1),
        }
    }
}

/// What a branch is sorted by: the current one comes first, then the latest activity.
pub struct BranchKey {
    pub current: bool,
    pub time: i64,
}

impl SortKey for BranchKey {
    open spec fn comes_before(self, other: BranchKey) -> bool {
        if self.current != other.current {
            self.current
        } else {
            self.time > other.time
        }
    }

    proof fn one_way(a: BranchKey, b: BranchKey) {
    }

    proof fn in_line(a: BranchKey, b: BranchKey, c: BranchKey) {
    }

    fn is_before(&self, other: &BranchKey) -> (b: bool) {
        if self.current != other.current {
            self.current
        } else {
            self.time > other.time
        }
    }
}

/// The keys by which branches are sorted.
pub open spec fn branch_keys(branches: Seq<GitBranchView>) -> Seq<BranchKey> {
    Seq::new(
        branches.len(),
        |i: int| (BranchKey { current: branches[i].current, time: branches[i].time }),
    )
}

fn copy_branch(branch: &GitBranch) -> (copy: GitBranch)
    ensures
        copy.deep_view() == branch.deep_view(),
{
    GitBranch {
        name: branch.name.clone(),
        kind: branch.kind.clone(),
        current: branch.current,
        upstream: branch.upstream.clone(),
        time: branch.time,
        author: branch.author.clone(),
        short: branch.short.clone(),
        subject: branch.subject.clone(),
    }
}

/// The branches, the current one first, then by the latest activity; what is equal in that keeps
/// its order.
pub fn sort_branches(branches: &Vec<GitBranch>) -> (sorted: Vec<GitBranch>)
    ensures
        is_sorted_list(
            branch_keys(branches.deep_view()),
            branches.deep_view(),
            sorted.deep_view(),
        ),
{
    let ghost list = branches.deep_view();
    let mut keys: Vec<BranchKey> = Vec::new();
    let mut i: usize = 0;
    while i < branches.len()
        invariant
            i <= branches@.len(),
            list == branches.deep_view(),
            keys@.len() == i,
            forall|k: int| 0 <= k < i ==> #[trigger] keys@[k] == branch_keys(list)[k],
        decreases branches@.len() - i,
    {
        keys.push(BranchKey { current: branches[i].current, time: branches[i].time });
        i = i + 1;
    }
    assert(keys@ == branch_keys(list));
    let order = sort_order(&keys);
    let mut sorted: Vec<GitBranch> = Vec::new();
    let mut j: usize = 0;
    while j < order.len()
        invariant
            j <= order@.len(),
            list == branches.deep_view(),
            is_order(keys@, order@, branches@.len() as int),
            sorted@.len() == j,
            forall|k: int|
                0 <= k < j ==> #[trigger] sorted.deep_view()[k] == list[order@[k] as int],
        decreases order@.len() - j,
    {
        let ghost before = sorted.deep_view();
        let branch = copy_branch(&branches[order[j]]);
        sorted.push(branch);
        assert(sorted.deep_view() == before.push(branch.deep_view()));
        j = j + 1;
    }
    assert(arranged(list, order@) == sorted.deep_view());
    sorted
}

/// The branches that the list of branches tells, the current one first, then by the latest
/// activity.
pub fn git_branches(raw: &str) -> (branches: Vec<GitBranch>)
    ensures
        ({
            let found = branches_on(lines(raw@), lines(raw@).len() as int);
            is_sorted_list(branch_keys(found), found, branches.deep_view())
        }),
{
    let list = lines_of(&chars_of(raw));
    let mut found: Vec<GitBranch> = Vec::new();
    assert(found.deep_view() == Seq::<GitBranchView>::empty());
    let mut i: usize = 0;
    while i < list.len()
        invariant
            i <= list@.len(),
            pieces(list@) == lines(raw@),
            found.deep_view() == branches_on(lines(raw@), i as int),
        decreases list@.len() - i,
    {
        let ghost before = found.deep_view();
        assert(lines(raw@)[i as int] == list@[i as int]@);
        if let Some(branch) = parse_branch(&list[i]) {
            found.push(branch);
            assert(found.deep_view() == before.push(branch.deep_view()));
        }
        i = i + 1;
    }
    assert(pieces(list@).len() == list@.len());
    sort_branches(&found)
}

// ---------------------------------------------------------------------------
// Commits and stashes
// ---------------------------------------------------------------------------

/// A commit.
#[derive(Debug)]
pub struct GitCommitInfo {
    pub hash: String,
    pub short: String,
    pub author: String,
    pub time: i64,
    pub subject: String,
    pub refs: String,
}

/// The mathematical value of a [`GitCommitInfo`].
pub struct GitCommitInfoView {
    pub hash: Seq<char>,
    pub short: Seq<char>,
    pub author: Seq<char>,
    pub time: i64,
    pub subject: Seq<char>,
    pub refs: Seq<char>,
}

impl DeepView for GitCommitInfo {
    type V = GitCommitInfoView;

    open spec fn deep_view(&self) -> GitCommitInfoView {
        GitCommitInfoView {
            hash: self.hash@,
            short: self.short@,
            author: self.author@,
            time: self.time,
            subject: self.subject@,
            refs: self.refs@,
        }
    }
}

/// The commit on a line of the log: at least five fields with a unit separator between them.
pub open spec fn commit_on(line: Seq<char>) -> Option<GitCommitInfoView> {
    let parts = split(line, '\u{1f}');
    if parts.len() < 5 {
        None
    } else {
        Some(
            GitCommitInfoView {
                hash: parts[0],
                short: parts[1],
                author: parts[2],
                time: time_of(parts[3]),
                subject: parts[4],
                refs: piece_or(parts, 5, ""@),
            },
        )
    }
}

/// The commit on a line of the log.
pub fn parse_commit(line: &Vec<char>) -> (commit: Option<GitCommitInfo>)
    ensures
        commit.deep_view() == commit_on(line@),
{
    let parts = split_on(line, '\u{1f}');
    assert(pieces(parts@).len() == parts@.len());
    if parts.len() < 5 {
        return None;
    }
    Some(
        GitCommitInfo {
            hash: string_of(&parts[0]),
            short: string_of(&parts[1]),
            author: string_of(&parts[2]),
            time: parse_time(&parts[3]),
            subject: string_of(&parts[4]),
            refs: string_of(&piece(&parts, 5, "")),
        },
    )
}

/// The commits on the first `n` of the lines.
pub open spec fn commits_on(list: Seq<Seq<char>>, n: int) -> Seq<GitCommitInfoView>
    decreases n,
{
    if n <= 0 {
        seq![]
    } else {
        match commit_on(list[n - 1]) {
            Some(commit) => commits_on(list, n - 1).push(commit),
            None => commits_on(list, n - 1),
        }
    }
}

/// The commits that the log tells.
pub fn parse_log(raw: &str) -> (commits: Vec<GitCommitInfo>)
    ensures
        commits.deep_view() == commits_on(lines(raw@), lines(raw@).len() as int),
{
    let list = lines_of(&chars_of(raw));
    let mut commits: Vec<GitCommitInfo> = Vec::new();
    assert(commits.deep_view() == Seq::<GitCommitInfoView>::empty());
    let mut i: usize = 0;
    while i < list.len()
        invariant
            i <= list@.len(),
            pieces(list@) == lines(raw@),
            commits.deep_view() == commits_on(lines(raw@), i as int),
        decreases list@.len() - i,
    {
        let ghost before = commits.deep_view();
        assert(lines(raw@)[i as int] == list@[i as int]@);
        if let Some(commit) = parse_commit(&list[i]) {
            commits.push(commit);
            assert(commits.deep_view() == before.push(commit.deep_view()));
        }
        i = i + 1;
    }
    assert(pieces(list@).len() == list@.len());
    commits
}

/// A file that a commit changes.
#[derive(Debug)]
pub struct GitCommitFile {
    pub status: String,
    pub path: String,
}

/// The mathematical value of a [`GitCommitFile`].
pub struct GitCommitFileView {
    pub status: Seq<char>,
    pub path: Seq<char>,
}

impl DeepView for GitCommitFile {
    type V = GitCommitFileView;

    open spec fn deep_view(&self) -> GitCommitFileView {
        GitCommitFileView { status: self.status@, path: self.path@ }
    }
}

/// The file on a line of a commit's files: its state, a tab, its path.
pub open spec fn commit_file_on(line: Seq<char>) -> Option<GitCommitFileView> {
    let parts = split(trimmed(line), '\t');
    if trimmed(line).len() == 0 || piece_or(parts, 1, ""@).len() == 0 {
        None
    } else {
        Some(GitCommitFileView { status: parts[0], path: parts[1] })
    }
}

/// The file on a line of a commit's files.
pub fn parse_commit_file(line: &Vec<char>) -> (file: Option<GitCommitFile>)
    ensures
        file.deep_view() == commit_file_on(line@),
{
    let text = trim(line);
    if text.len() == 0 {
        return None;
    }
    let parts = split_on(&text, '\t');
    assert(pieces(parts@).len() == parts@.len());
    let path = piece(&parts, 1, "");
    if path.len() == 0 {
        return None;
    }
    proof {
        reveal_strlit("");
        assert(parts@.len() > 1);
    }
    Some(GitCommitFile { status: string_of(&parts[0]), path: string_of(&path) })
}

/// The files on the first `n` of the lines.
pub open spec fn commit_files_on(list: Seq<Seq<char>>, n: int) -> Seq<GitCommitFileView>
    decreases n,
{
    if n <= 0 {
        seq![]
    } else {
        match commit_file_on(list[n - 1]) {
            Some(file) => commit_files_on(list, n - 1).push(file),
            None => commit_files_on(list, n - 1),
        }
    }
}

/// The files that a commit changes.
pub fn git_commit_files(raw: &str) -> (files: Vec<GitCommitFile>)
    ensures
        files.deep_view() == commit_files_on(lines(raw@), lines(raw@).len() as int),
{
    let list = lines_of(&chars_of(raw));
    let mut files: Vec<GitCommitFile> = Vec::new();
    assert(files.deep_view() == Seq::<GitCommitFileView>::empty());
    let mut i: usize = 0;
    while i < list.len()
        invariant
            i <= list@.len(),
            pieces(list@) == lines(raw@),
            files.deep_view() == commit_files_on(lines(raw@), i as int),
        decreases list@.len() - i,
    {
        let ghost before = files.deep_view();
        assert(lines(raw@)[i as int] == list@[i as int]@);
        if let Some(file) = parse_commit_file(&list[i]) {
            files.push(file);
            assert(files.deep_view() == before.push(file.deep_view()));
        }
        i = i + 1;
    }
    assert(pieces(list@).len() == list@.len());
    files
}

/// Changes that were put aside.
#[derive(Debug)]
pub struct StashEntry {
    pub index: usize,
    pub message: String,
    pub time: i64,
}

/// The mathematical value of a [`StashEntry`].
pub struct StashEntryView {
    pub index: int,
    pub message: Seq<char>,
    pub time: i64,
}

impl DeepView for StashEntry {
    type V = StashEntryView;

    open spec fn deep_view(&self) -> StashEntryView {
        StashEntryView { index: self.index as int, message: self.message@, time: self.time }
    }
}

/// The entry on line number `index` of the stash list: a reference, a time and a message with a NUL
/// between them.
pub open spec fn stash_on(line: Seq<char>, index: int) -> StashEntryView {
    let parts = split(line, '\0');
    StashEntryView {
        index,
        message: trimmed(piece_or(parts, 2, ""@)),
        time: time_of(piece_or(parts, 1, "0"@)),
    }
}

/// The entries that the stash list tells, one for each line.
pub fn git_stash_list(raw: &str) -> (entries: Vec<StashEntry>)
    ensures
        entries.deep_view() == Seq::new(
            lines(raw@).len(),
            |i: int| stash_on(lines(raw@)[i], i),
        ),
{
    let list = lines_of(&chars_of(raw));
    let mut entries: Vec<StashEntry> = Vec::new();
    let mut i: usize = 0;
    while i < list.len()
        invariant
            i <= list@.len(),
            pieces(list@) == lines(raw@),
            entries@.len() == i,
            forall|k: int|
                0 <= k < i ==> #[trigger] entries.deep_view()[k] == stash_on(lines(raw@)[k], k),
        decreases list@.len() - i,
    {
        let ghost before = entries.deep_view();
        assert(lines(raw@)[i as int] == list@[i as int]@);
        let parts = split_on(&list[i], '\0');
        let entry = StashEntry {
            index: i,
            message: string_of(&trim(&piece(&parts, 2, ""))),
            time: parse_time(&piece(&parts, 1, "0")),
        };
        entries.push(entry);
        assert(entries.deep_view() == before.push(entry.deep_view()));
        i = i + 1;
    }
    assert(pieces(list@).len() == list@.len());
    assert(entries.deep_view() == Seq::new(
        lines(raw@).len(),
        |i: int| stash_on(lines(raw@)[i], i),
    ));
    entries
}

// ---------------------------------------------------------------------------
// Laws
// ---------------------------------------------------------------------------

/// The current branch heads the list, and behind it nothing stands in front of later activity.
pub proof fn current_branch_comes_first(
    found: Seq<GitBranchView>,
    sorted: Seq<GitBranchView>,
    i: int,
    j: int,
)
    requires
        is_sorted_list(branch_keys(found), found, sorted),
        0 <= i < j < sorted.len(),
    ensures
        sorted[j].current ==> sorted[i].current,
        sorted[i].current == sorted[j].current ==> sorted[i].time >= sorted[j].time,
{
    let keys = branch_keys(found);
    let order = choose|order: Seq<usize>| #[trigger]
        is_order(keys, order, found.len() as int) && arranged(found, order) == sorted;
    assert(crate::sort::belongs_before(keys, order[i] as int, order[j] as int));
}

/// Every change is listed: one in the index as staged, one in the working tree as not staged.
pub proof fn every_change_is_listed(status: GitStatusView, record: Seq<char>)
    requires
        is_change(record),
    ensures
        ({
            let next = record_taken(status, record);
            &&& next.branch == status.branch
            &&& index_state(record) != '?' && index_state(record) != ' ' ==> next.staged
                == status.staged.push(
                GitChangeView {
                    path: path_in(record),
                    status: seq![index_state(record)],
                    staged: true,
                },
            )
            &&& index_state(record) == '?' || tree_state(record) != ' ' ==> next.unstaged.len()
                == status.unstaged.len() + 1 && next.unstaged.last().path == path_in(record)
                && !next.unstaged.last().staged
        }),
{
}

/// Changing to a remote branch never leaves all branches: for a name behind `origin/` the plan and
/// its task make git change to the local branch of that name, or create it to follow the remote one.
pub proof fn remote_checkout_lands_on_a_branch(
    branch: Seq<char>,
    local_name: Seq<char>,
    plan: Result<CheckoutPlan, String>,
    has_local: bool,
)
    requires
        is_checkout_plan(branch, false, plan),
        trimmed(branch) == "origin/"@ + local_name,
        local_name.len() > 0,
        local_name != "HEAD"@,
    ensures
        plan matches Ok(CheckoutPlan::Remote { local, remote }) && args_of(
            remote_task(local, remote, has_local),
        ) == (if has_local {
            seq!["checkout"@, local_name]
        } else {
            seq!["checkout"@, "-b"@, local_name, "--track"@, "origin/"@ + local_name]
        }),
{
    let name = trimmed(branch);
    let head = "origin/"@;
    assert(name.subrange(0, head.len() as int) == head);
    assert(name.subrange(head.len() as int, name.len() as int) == local_name);
}

/// The status with the change that a record tells: the path in full, whatever it holds, and of the
/// two states those that say that something changed. A file that git does not know is not staged.
pub open spec fn with_change(
    status: GitStatusView,
    x: char,
    y: char,
    path: Seq<char>,
    next: GitStatusView,
) -> bool {
    &&& next.branch == status.branch
    &&& next.ahead == status.ahead
    &&& next.behind == status.behind
    &&& x != ' ' && x != '?' ==> next.staged == status.staged.push(
        GitChangeView { path, status: seq![x], staged: true },
    )
    &&& x == ' ' || x == '?' ==> next.staged == status.staged
    &&& x == '?' ==> next.unstaged == status.unstaged.push(
        GitChangeView { path, status: seq!['?'], staged: false },
    )
    &&& x != '?' && y != ' ' ==> next.unstaged == status.unstaged.push(
        GitChangeView { path, status: seq![y], staged: false },
    )
    &&& x != '?' && y == ' ' ==> next.unstaged == status.unstaged
}

/// A record of two ASCII states, one ASCII character more and a path tells of a change to exactly that
/// path, with and without quotes around it: the path comes out in full, whatever it holds. The
/// character in front of the path is a space where git writes the record.
#[verifier::rlimit(40)]
pub proof fn record_tells_its_path(
    status: GitStatusView,
    x: char,
    y: char,
    gap: char,
    path: Seq<char>,
)
    requires
        (x as u32) < 128,
        (y as u32) < 128,
        (gap as u32) < 128,
        !(x == '#' && y == '#' && gap == ' '),
        path.len() > 0,
        path[0] != '"',
        path.last() != '"',
    ensures
        ({
            let record = seq![x, y, gap] + path;
            &&& is_change(record)
            &&& has_path(record)
            &&& with_change(status, x, y, path, record_taken(status, record))
        }),
        ({
            let record = seq![x, y, gap, '"'] + path + seq!['"'];
            &&& is_change(record)
            &&& has_path(record)
            &&& with_change(status, x, y, path, record_taken(status, record))
        }),
{
    let quoted = seq!['"'] + path + seq!['"'];
    change_is_read(x, y, gap, path);
    change_is_read(x, y, gap, quoted);
    stripping_takes_all(path, '"');
    let behind = path.push('"');
    assert(quoted == seq!['"'] + behind);
    stripping_takes_all(behind, '"');
    assert(behind[0] == path[0]);
    assert(seq![x, y, gap, '"'] + path + seq!['"'] == seq![x, y, gap] + quoted);
}

/// The states and what stands behind them can be cut out of a record.
#[verifier::rlimit(40)]
proof fn change_is_read(x: char, y: char, gap: char, rest: Seq<char>)
    requires
        (x as u32) < 128,
        (y as u32) < 128,
        (gap as u32) < 128,
        !(x == '#' && y == '#' && gap == ' '),
        rest.len() > 0,
    ensures
        ({
            let record = seq![x, y, gap] + rest;
            &&& is_change(record)
            &&& has_path(record)
            &&& index_state(record) == x
            &&& tree_state(record) == y
            &&& byte_slice(record, 3, encode_utf8(record).len() as int) == rest
        }),
{
    let head = seq![x, y, gap];
    let record = head + rest;
    reveal_strlit("## ");
    assert("## "@ == seq!['#', '#', ' ']);
    assert(vstd::utf8::is_ascii_chars(head)) by {
        assert(head[0] == x && head[1] == y && head[2] == gap);
    }
    vstd::utf8::is_ascii_chars_encode_utf8(head);
    encode_concat(head, rest);
    slice_between_characters(record, 3, record.len() as int);
    assert(record.subrange(0, 3) == head);
    assert(record.subrange(0, record.len() as int) == record);
    assert(record.subrange(3, record.len() as int) == rest);
    let bytes = encode_utf8(record);
    assert(bytes[0] == encode_utf8(head)[0] && bytes[1] == encode_utf8(head)[1]);
    assert(head[0] as u8 == encode_utf8(head)[0]);
    assert(head[1] as u8 == encode_utf8(head)[1]);
    if has_prefix(record, "## "@) {
        assert(head == "## "@);
        assert(head[0] == '#' && head[1] == '#' && head[2] == ' ');
    }
    assert(encode_utf8(rest).len() >= 1) by {
        let one = seq![rest[0]];
        let more = rest.subrange(1, rest.len() as int);
        assert(rest == one + more);
        encode_concat(one, more);
        vstd::utf8::encode_utf8_first_scalar(rest);
        assert(vstd::utf8::encode_utf8(one).len() >= 1);
    }
}

/// A record of fewer than four bytes that names no branch tells nothing.
pub proof fn short_record_tells_nothing(status: GitStatusView, record: Seq<char>)
    requires
        encode_utf8(record).len() < 4,
        !has_prefix(record, "## "@),
    ensures
        record_taken(status, record) == status,
{
}

/// The head record names the branch: in front of its upstream, alone, or behind the words that there
/// is no commit yet. Only the branch changes.
#[verifier::rlimit(40)]
pub proof fn head_record_names_the_branch(
    status: GitStatusView,
    name: Seq<char>,
    upstream: Seq<char>,
)
    requires
        name.len() > 0,
        name.last() != '.',
        forall|i: int| 0 <= i ==> !#[trigger] occurs_at(name, "..."@, i),
        !has_prefix(name, "No commits yet on "@),
    ensures
        record_taken(status, "## "@ + name) == (GitStatusView { branch: name, ..status }),
        record_taken(status, "## "@ + (name + "..."@ + upstream)) == (GitStatusView {
            branch: name,
            ..status
        }),
        record_taken(status, "## "@ + ("No commits yet on "@ + name)) == (GitStatusView {
            branch: name,
            ..status
        }),
{
    let dots = "..."@;
    let words = "No commits yet on "@;
    let long = name + dots + upstream;
    let fresh = words + name;
    after_prefix_is_the_rest("## "@ + name, "## "@, name);
    after_prefix_is_the_rest("## "@ + long, "## "@, long);
    after_prefix_is_the_rest("## "@ + fresh, "## "@, fresh);
    assert(words.len() > 0) by {
        reveal_strlit("No commits yet on ");
    }
    without_prefixes_takes_one(name, words);
    before_first_of_all(name, dots);
    no_dots_in_front(name, upstream);
    before_first_is_in_front(name, dots, upstream);
    no_dots_behind(name);
    before_first_of_all(fresh, dots);
}

/// In front of the upstream's dots there are none.
proof fn no_dots_in_front(name: Seq<char>, upstream: Seq<char>)
    requires
        name.len() > 0,
        name.last() != '.',
        forall|i: int| 0 <= i ==> !#[trigger] occurs_at(name, "..."@, i),
    ensures
        forall|i: int|
            0 <= i < name.len() ==> !#[trigger] occurs_at(name + "..."@ + upstream, "..."@, i),
{
    reveal_strlit("...");
    let dots = "..."@;
    let long = name + dots + upstream;
    assert forall|i: int| 0 <= i < name.len() implies !#[trigger] occurs_at(long, dots, i) by {
        if occurs_at(long, dots, i) {
            let found = long.subrange(i, i + 3);
            assert(found == dots);
            assert(found[0] == '.' && found[1] == '.' && found[2] == '.');
            if i + 3 <= name.len() {
                assert(name.subrange(i, i + 3) == found);
                assert(occurs_at(name, dots, i));
            } else {
                assert(found[name.len() - 1 - i] == name.last());
            }
        }
    }
}

/// The words in front of a branch without commits bring no dots.
proof fn no_dots_behind(name: Seq<char>)
    requires
        forall|i: int| 0 <= i ==> !#[trigger] occurs_at(name, "..."@, i),
    ensures
        forall|i: int| 0 <= i ==> !#[trigger] occurs_at("No commits yet on "@ + name, "..."@, i),
{
    reveal_strlit("...");
    reveal_strlit("No commits yet on ");
    let dots = "..."@;
    let words = "No commits yet on "@;
    let fresh = words + name;
    assert forall|i: int| 0 <= i implies !#[trigger] occurs_at(fresh, dots, i) by {
        if occurs_at(fresh, dots, i) {
            let found = fresh.subrange(i, i + 3);
            assert(found == dots);
            assert(found[0] == '.');
            if i < words.len() {
                assert(found[0] == words[i]);
            } else {
                let k = i - words.len();
                assert(name.subrange(k, k + 3) == found);
                assert(occurs_at(name, dots, k));
            }
        }
    }
}

/// What some status output tells.
pub open spec fn told(raw: Seq<char>) -> GitStatusView {
    status_told(split(raw, '\0'), split(raw, '\0').len() as int)
}

proof fn told_by_the_same(a: Seq<Seq<char>>, b: Seq<Seq<char>>, n: int)
    requires
        n <= a.len(),
        n <= b.len(),
        forall|i: int| 0 <= i < n ==> #[trigger] a[i] == b[i],
    ensures
        status_told(a, n) == status_told(b, n),
    decreases n,
{
    if n > 0 {
        told_by_the_same(a, b, n - 1);
        assert(a[n - 1] == b[n - 1]);
    }
}

/// Every record of the status output counts, however many stand in front of it; before the first one
/// the branch is "HEAD" and there are no changes.
pub proof fn every_record_counts(raw: Seq<char>, record: Seq<char>)
    requires
        lacks(record, '\0'),
    ensures
        told(record) == record_taken(
            GitStatusView {
                branch: "HEAD"@,
                ahead: 0,
                behind: 0,
                staged: seq![],
                unstaged: seq![],
            },
            record,
        ),
        told(raw + seq!['\0'] + record) == record_taken(told(raw), record),
{
    let before = split(raw, '\0');
    let all = split(raw + seq!['\0'] + record, '\0');
    split_of_one_part(record, '\0');
    split_at_separator(raw, record, '\0');
    assert(all == before.push(record));
    told_by_the_same(all, before, before.len() as int);
    assert(status_told(all, all.len() as int) == record_taken(
        status_told(all, before.len() as int),
        record,
    ));
    let one = seq![record];
    reveal_with_fuel(status_told, 2);
    assert(status_told(one, 1) == record_taken(status_told(one, 0), one[0]));
}

/// A change is taken back by removing the file exactly where one of the records begins with two
/// question marks.
#[verifier::rlimit(40)]
pub proof fn unknown_file_is_told(a: Seq<char>, b: Seq<char>, record: Seq<char>)
    requires
        lacks(record, '\0'),
    ensures
        untracked(record) == (record.len() >= 2 && record[0] == '?' && record[1] == '?'),
        untracked(a + seq!['\0'] + b) == (untracked(a) || untracked(b)),
{
    reveal_strlit("??");
    let mark = "??"@;
    assert(mark == seq!['?', '?']);
    split_of_one_part(record, '\0');
    let one = split(record, '\0');
    assert(one[0] == record);
    if record.len() >= 2 {
        let head = record.subrange(0, 2);
        assert(head[0] == record[0] && head[1] == record[1]);
        if record[0] == '?' && record[1] == '?' {
            assert(head == mark);
            assert(has_prefix(one[0], mark));
        }
    }
    split_at_separator(a, b, '\0');
    let left = split(a, '\0');
    let right = split(b, '\0');
    let all = split(a + seq!['\0'] + b, '\0');
    assert(all == left + right);
    if untracked(a) {
        let i = choose|i: int| 0 <= i < left.len() && has_prefix(#[trigger] left[i], mark);
        assert(all[i] == left[i]);
    }
    if untracked(b) {
        let i = choose|i: int| 0 <= i < right.len() && has_prefix(#[trigger] right[i], mark);
        assert(all[left.len() + i] == right[i]);
    }
    if untracked(a + seq!['\0'] + b) {
        let i = choose|i: int| 0 <= i < all.len() && has_prefix(#[trigger] all[i], mark);
        if i < left.len() {
            assert(left[i] == all[i]);
        } else {
            assert(right[i - left.len()] == all[i]);
        }
    }
}

/// The text of field `k`, without the white space around it; it is empty where there are fewer.
pub open spec fn said(fields: Seq<Seq<char>>, k: int) -> Seq<char> {
    if k < fields.len() {
        trimmed(fields[k])
    } else {
        seq![]
    }
}

/// A line of the list of branches tells the branch by its fields, with a NUL between them: the full
/// reference, the mark of the current one, the upstream, the time, the author, the short hash and the
/// subject. A local branch and a remote one are told apart by the reference; the head of a remote and
/// any other reference is passed over. A time that is no number counts as 0.
#[verifier::rlimit(40)]
pub proof fn branch_line_is_read(fields: Seq<Seq<char>>, name: Seq<char>)
    requires
        fields.len() > 0,
        fields.last().len() > 0,
        forall|i: int| 0 <= i < fields.len() ==> lacks(#[trigger] fields[i], '\0'),
    ensures
        ({
            let line = joined(fields, seq!['\0']);
            let time = match signed_number(said(fields, 3)) {
                Some(n) => n as i64,
                None => 0i64,
            };
            let local = GitBranchView {
                name,
                kind: "local"@,
                current: said(fields, 1) == "*"@,
                upstream: said(fields, 2),
                time,
                author: said(fields, 4),
                short: said(fields, 5),
                subject: said(fields, 6),
            };
            &&& said(fields, 0) == "refs/heads/"@ + name && !has_suffix(name, "/HEAD"@) ==> branch_on(
                line,
            ) == Some(local)
            &&& said(fields, 0) == "refs/remotes/"@ + name && !has_suffix(name, "/HEAD"@)
                ==> branch_on(line) == Some(GitBranchView { kind: "remote"@, ..local })
            &&& (said(fields, 0) == "refs/heads/"@ + name || said(fields, 0) == "refs/remotes/"@
                + name) && has_suffix(name, "/HEAD"@) ==> branch_on(line) is None
            &&& !has_prefix(said(fields, 0), "refs/heads/"@) && !has_prefix(
                said(fields, 0),
                "refs/remotes/"@,
            ) ==> branch_on(line) is None
        }),
{
    let line = joined(fields, seq!['\0']);
    joined_splits_back(fields, '\0');
    let last = fields.last();
    assert(last[last.len() - 1] != '\0');
    assert(line.len() > 0 && line.last() == last.last());
    stripping_takes_all(line, '\0');
    reveal_strlit("");
    reveal_strlit("0");
    assert(""@ == Seq::<char>::empty());
    let none = Seq::<char>::empty();
    trimmed_stays(none);
    let zero = "0"@;
    assert(zero == seq!['0']);
    assert(!white(zero[0]) && !white(zero.last()));
    trimmed_stays(zero);
    decimal_has_no_leading_zero(0);
    signed_decimal_reads_back(0);
    assert(signed_number(zero) == Some(0int));
    reveal_strlit("refs/heads/");
    reveal_strlit("refs/remotes/");
    let heads = "refs/heads/"@;
    let remotes = "refs/remotes/"@;
    let refname = said(fields, 0);
    after_prefix_is_the_rest(refname, heads, name);
    after_prefix_is_the_rest(refname, remotes, name);
    if refname == remotes + name {
        assert(refname[5] == 'r');
        if has_prefix(refname, heads) {
            assert(refname.subrange(0, 11)[5] == heads[5]);
        }
    }
    assert(none.len() == 0 && signed_number(none) is None);
}

/// NULs at the end of a line of the list of branches tell nothing.
pub proof fn empty_fields_tell_nothing(line: Seq<char>)
    ensures
        branch_on(line.push('\0')) == branch_on(line),
        branch_on(seq![]) is None,
{
    stripping_takes_all(line, '\0');
}

/// Every line of the list of branches counts, however many stand in front of it, and the order is
/// kept.
pub proof fn every_branch_line_counts(list: Seq<Seq<char>>, line: Seq<char>)
    ensures
        branches_on(seq![], 0) == Seq::<GitBranchView>::empty(),
        branches_on(list.push(line), list.len() as int + 1) == (match branch_on(line) {
            Some(branch) => branches_on(list, list.len() as int).push(branch),
            None => branches_on(list, list.len() as int),
        }),
{
    branches_on_the_same(list.push(line), list, list.len() as int);
}

proof fn branches_on_the_same(a: Seq<Seq<char>>, b: Seq<Seq<char>>, n: int)
    requires
        n <= a.len(),
        n <= b.len(),
        forall|i: int| 0 <= i < n ==> #[trigger] a[i] == b[i],
    ensures
        branches_on(a, n) == branches_on(b, n),
    decreases n,
{
    if n > 0 {
        branches_on_the_same(a, b, n - 1);
        assert(a[n - 1] == b[n - 1]);
    }
}

/// A line of the log tells the commit by its fields, with a unit separator between them, each as it
/// stands: the hash, the short hash, the author, the time, the subject and, where there is a sixth,
/// the references. A line with fewer than five fields tells none.
pub proof fn commit_line_is_read(fields: Seq<Seq<char>>)
    requires
        fields.len() > 0,
        forall|i: int| 0 <= i < fields.len() ==> lacks(#[trigger] fields[i], '\u{1f}'),
    ensures
        fields.len() < 5 ==> commit_on(joined(fields, seq!['\u{1f}'])) is None,
        fields.len() >= 5 ==> commit_on(joined(fields, seq!['\u{1f}'])) == Some(
            GitCommitInfoView {
                hash: fields[0],
                short: fields[1],
                author: fields[2],
                time: match signed_number(fields[3]) {
                    Some(n) => n as i64,
                    None => 0i64,
                },
                subject: fields[4],
                refs: if fields.len() > 5 {
                    fields[5]
                } else {
                    seq![]
                },
            },
        ),
{
    joined_splits_back(fields, '\u{1f}');
    reveal_strlit("");
    assert(""@ == Seq::<char>::empty());
}

/// Every line of the log counts, however many stand in front of it, and the order is kept.
pub proof fn every_log_line_counts(list: Seq<Seq<char>>, line: Seq<char>)
    ensures
        commits_on(seq![], 0) == Seq::<GitCommitInfoView>::empty(),
        commits_on(list.push(line), list.len() as int + 1) == (match commit_on(line) {
            Some(commit) => commits_on(list, list.len() as int).push(commit),
            None => commits_on(list, list.len() as int),
        }),
{
    commits_on_the_same(list.push(line), list, list.len() as int);
}

proof fn commits_on_the_same(a: Seq<Seq<char>>, b: Seq<Seq<char>>, n: int)
    requires
        n <= a.len(),
        n <= b.len(),
        forall|i: int| 0 <= i < n ==> #[trigger] a[i] == b[i],
    ensures
        commits_on(a, n) == commits_on(b, n),
    decreases n,
{
    if n > 0 {
        commits_on_the_same(a, b, n - 1);
        assert(a[n - 1] == b[n - 1]);
    }
}

/// A time that git writes is read as it is written.
pub proof fn written_time_is_read(time: i64)
    ensures
        time_of(signed_decimal(time as int)) == time,
{
    signed_decimal_reads_back(time as int);
}

/// A line of a commit's files tells the state and the path behind the first tab, each as it stands;
/// what stands behind a second tab is passed over.
pub proof fn file_line_is_read(state: Seq<char>, path: Seq<char>, more: Seq<char>)
    requires
        state.len() > 0,
        path.len() > 0,
        !white(state[0]),
        lacks(state, '\t'),
        lacks(path, '\t'),
    ensures
        !white(path.last()) ==> commit_file_on(state + seq!['\t'] + path) == Some(
            GitCommitFileView { status: state, path },
        ),
        more.len() > 0 && !white(more.last()) && lacks(more, '\t') ==> commit_file_on(
            state + seq!['\t'] + path + seq!['\t'] + more,
        ) == Some(GitCommitFileView { status: state, path }),
{
    let two = state + seq!['\t'] + path;
    split_of_one_part(state, '\t');
    split_of_one_part(path, '\t');
    split_at_separator(state, path, '\t');
    assert(split(two, '\t') == seq![state, path]);
    assert(two[0] == state[0] && two.last() == path.last());
    if !white(path.last()) {
        trimmed_stays(two);
    }
    if more.len() > 0 && !white(more.last()) && lacks(more, '\t') {
        let three = two + seq!['\t'] + more;
        split_of_one_part(more, '\t');
        split_at_separator(two, more, '\t');
        assert(split(three, '\t') == seq![state, path, more]);
        assert(three[0] == state[0] && three.last() == more.last());
        trimmed_stays(three);
    }
}

/// A line without a tab tells no file.
pub proof fn line_without_a_path_tells_none(line: Seq<char>)
    requires
        lacks(line, '\t'),
    ensures
        commit_file_on(line) is None,
{
    trimmed_is_the_middle(line);
    let (i, j) = choose|i: int, j: int|
        0 <= i <= j <= line.len() && trimmed(line) == #[trigger] line.subrange(i, j);
    let text = trimmed(line);
    assert forall|k: int| 0 <= k < text.len() implies #[trigger] text[k] != '\t' by {
        assert(text[k] == line[i + k]);
    }
    split_of_one_part(text, '\t');
    reveal_strlit("");
}

/// Every line of a commit's files counts, however many stand in front of it, and the order is kept.
pub proof fn every_file_line_counts(list: Seq<Seq<char>>, line: Seq<char>)
    ensures
        commit_files_on(seq![], 0) == Seq::<GitCommitFileView>::empty(),
        commit_files_on(list.push(line), list.len() as int + 1) == (match commit_file_on(line) {
            Some(file) => commit_files_on(list, list.len() as int).push(file),
            None => commit_files_on(list, list.len() as int),
        }),
{
    commit_files_on_the_same(list.push(line), list, list.len() as int);
}

proof fn commit_files_on_the_same(a: Seq<Seq<char>>, b: Seq<Seq<char>>, n: int)
    requires
        n <= a.len(),
        n <= b.len(),
        forall|i: int| 0 <= i < n ==> #[trigger] a[i] == b[i],
    ensures
        commit_files_on(a, n) == commit_files_on(b, n),
    decreases n,
{
    if n > 0 {
        commit_files_on_the_same(a, b, n - 1);
        assert(a[n - 1] == b[n - 1]);
    }
}

/// A line of the stash list tells the time and the message behind the reference; its place in the
/// list is its number.
pub proof fn stash_line_is_read(
    reference: Seq<char>,
    time: i64,
    message: Seq<char>,
    index: int,
)
    requires
        lacks(reference, '\0'),
        lacks(message, '\0'),
    ensures
        stash_on(
            reference + seq!['\0'] + signed_decimal(time as int) + seq!['\0'] + message,
            index,
        ) == (StashEntryView { index, message: trimmed(message), time }),
{
    let when = signed_decimal(time as int);
    signed_decimal_reads_back(time as int);
    assert forall|i: int| 0 <= i < when.len() implies #[trigger] when[i] != '\0' by {
        if time < 0 {
            decimal_reads_back((-time) as nat, 0x8000_0000_0000_0000);
            if i > 0 {
                assert(when[i] == decimal((-time) as nat)[i - 1]);
            }
        } else {
            decimal_reads_back(time as nat, 0x8000_0000_0000_0000);
        }
    }
    split_of_one_part(reference, '\0');
    split_of_one_part(when, '\0');
    split_of_one_part(message, '\0');
    split_at_separator(reference, when, '\0');
    split_at_separator(reference + seq!['\0'] + when, message, '\0');
    let line = reference + seq!['\0'] + when + seq!['\0'] + message;
    assert(split(line, '\0') == seq![reference, when, message]);
}

/// A path is always the last argument, behind two hyphens, so that none is taken for an option;
/// several paths stand there one behind the other, each as it is.
pub proof fn paths_stand_behind_the_hyphens(path: String, staged: bool, paths: Vec<String>)
    ensures
        args_of(GitTask::PathStatus { path }) == seq![
            "status"@,
            "--porcelain"@,
            "-z"@,
            "--"@,
            path@,
        ],
        args_of(GitTask::Restore { path }) == seq!["checkout"@, "--"@, path@],
        args_of(GitTask::Diff { path, staged }) == (if staged {
            seq!["diff"@, "--no-color"@, "--cached"@]
        } else {
            seq!["diff"@, "--no-color"@]
        }) + seq!["--"@, path@],
        args_of(GitTask::Add { paths }).len() == 2 + paths@.len(),
        args_of(GitTask::Add { paths })[0] == "add"@,
        args_of(GitTask::Add { paths })[1] == "--"@,
        forall|i: int|
            0 <= i < paths@.len() ==> #[trigger] args_of(GitTask::Add { paths })[2 + i] == paths@[i]@,
        args_of(GitTask::Unstage { paths }).len() == 3 + paths@.len(),
        args_of(GitTask::Unstage { paths })[0] == "reset"@,
        args_of(GitTask::Unstage { paths })[1] == "HEAD"@,
        args_of(GitTask::Unstage { paths })[2] == "--"@,
        forall|i: int|
            0 <= i < paths@.len() ==> #[trigger] args_of(GitTask::Unstage { paths })[3 + i]
                == paths@[i]@,
{
}

/// What a task names comes out in its arguments as it is, and decides nothing but its own place.
pub proof fn names_are_handed_on(
    name: String,
    other: String,
    force: bool,
    max: usize,
    message: Option<String>,
)
    ensures
        args_of(GitTask::Commit { text: name }) == seq!["commit"@, "-m"@, name@],
        args_of(GitTask::CreateBranch { name }) == seq!["checkout"@, "-b"@, name@],
        args_of(GitTask::FindBranch { name }) == seq![
            "show-ref"@,
            "--verify"@,
            "--quiet"@,
            "refs/heads/"@ + name@,
        ],
        args_of(GitTask::Switch { name }) == seq!["checkout"@, name@],
        args_of(GitTask::Track { local: name, remote: other }) == seq![
            "checkout"@,
            "-b"@,
            name@,
            "--track"@,
            other@,
        ],
        args_of(GitTask::Log { max })[2] == "--max-count="@ + decimal(max as nat),
        args_of(GitTask::CommitFiles { hash: name }) == seq![
            "show"@,
            "--name-status"@,
            "--format="@,
            name@,
        ],
        args_of(GitTask::CommitDiff { hash: name }) == seq![
            "show"@,
            "--no-color"@,
            "--format="@,
            name@,
        ],
        args_of(GitTask::Revert { hash: name }) == seq!["revert"@, "--no-edit"@, name@],
        args_of(GitTask::Merge { name }) == seq!["merge"@, name@],
        args_of(GitTask::DeleteBranch { name, force }) == seq![
            "branch"@,
            if force {
                "-D"@
            } else {
                "-d"@
            },
            name@,
        ],
        args_of(GitTask::StashPush { message }) == seq!["stash"@, "push"@, "-u"@] + (match message {
            Some(text) => seq!["-m"@, text@],
            None => seq![],
        }),
        args_of(GitTask::Amend { message }) == seq!["commit"@, "--amend"@] + (match message {
            Some(text) => seq!["-m"@, text@],
            None => seq!["--no-edit"@],
        }),
{
    assert(seq!["stash"@, "push"@, "-u"@] + Seq::<Seq<char>>::empty() == seq![
        "stash"@,
        "push"@,
        "-u"@,
    ]);
}

/// What a failed git complained of is what is shown, without the white space around it: all of it
/// where it has no more than six hundred bytes, else its last six hundred characters and an ellipsis.
/// Where it said nothing the command and the exit code are shown.
pub proof fn complaint_is_shown(stderr: Seq<char>, args: Seq<Seq<char>>, code: Option<i32>)
    ensures
        trimmed(stderr).len() > 0 && encode_utf8(trimmed(stderr)).len() <= 600 ==> failure_text(
            stderr,
            args,
            code,
        ) == trimmed(stderr),
        trimmed(stderr).len() > 600 ==> failure_text(stderr, args, code) == trimmed(
            stderr,
        ).subrange(trimmed(stderr).len() - 600, trimmed(stderr).len() as int) + "…"@,
        0 < trimmed(stderr).len() <= 600 && encode_utf8(trimmed(stderr)).len() > 600
            ==> failure_text(stderr, args, code) == trimmed(stderr) + "…"@,
        trimmed(stderr).len() == 0 ==> failure_text(stderr, args, code) == "git "@ + joined(
            args,
            " "@,
        ) + " 失败（exit "@ + (match code {
            Some(n) => "Some("@ + signed_decimal(n as int) + ")"@,
            None => "None"@,
        }) + "）"@,
{
    let text = trimmed(stderr);
    if text.len() > 600 {
        characters_have_bytes(text);
    }
}

proof fn characters_have_bytes(text: Seq<char>)
    ensures
        encode_utf8(text).len() >= text.len(),
    decreases text.len(),
{
    if text.len() > 0 {
        characters_have_bytes(text.drop_first());
    }
}

/// A message counts without the white space around it, and only where something is left.
pub proof fn message_counts_trimmed(text: Seq<char>)
    ensures
        trimmed(text).len() > 0 ==> message_of(Some(text)) == Some(trimmed(text)),
        trimmed(text).len() == 0 ==> message_of(Some(text)) is None,
        message_of(None) is None,
{
}

/// Changing to a branch goes by its name without the white space around it: a new one is created
/// under that name, also where it begins with `origin/`; another is switched to. An empty name and
/// the head of the remote are refused.
pub proof fn checkout_goes_by_the_name(
    branch: Seq<char>,
    new_branch: bool,
    plan: Result<CheckoutPlan, String>,
)
    requires
        is_checkout_plan(branch, new_branch, plan),
    ensures
        ({
            let name = trimmed(branch);
            &&& name.len() == 0 ==> plan is Err && plan->Err_0@ == "分支名不能为空"@
            &&& name.len() > 0 && new_branch ==> (plan matches Ok(
                CheckoutPlan::Run(GitTask::CreateBranch { name: n }),
            ) && n@ == name)
            &&& name.len() > 0 && !new_branch && !has_prefix(name, "origin/"@) ==> (
            plan matches Ok(CheckoutPlan::Run(GitTask::Switch { name: n })) && n@ == name)
            &&& !new_branch && (name == "origin/"@ || name == "origin/"@ + "HEAD"@) ==> plan is Err
                && plan->Err_0@ == "无法切换到 "@ + name
        }),
{
    let name = trimmed(branch);
    reveal_strlit("origin/");
    after_prefix_is_the_rest(name, "origin/"@, "HEAD"@);
    after_prefix_is_the_rest(name, "origin/"@, Seq::empty());
    assert("origin/"@ + Seq::<char>::empty() == "origin/"@);
}

/// Sorting the branches loses none: the sorted list is as long, and every branch of either is in the
/// other.
pub proof fn no_branch_is_lost(found: Seq<GitBranchView>, sorted: Seq<GitBranchView>)
    requires
        is_sorted_list(branch_keys(found), found, sorted),
    ensures
        sorted.len() == found.len(),
        forall|branch: GitBranchView| #[trigger] sorted.contains(branch) == found.contains(branch),
{
    sorting_loses_nothing(branch_keys(found), found, sorted);
}

/// The log is asked for as many commits as were wanted, but for one at least and five hundred at most;
/// for fifty where nothing was said.
pub proof fn log_is_bounded(max: Option<usize>, task: GitTask)
    requires
        call_ensures(git_log, (max,), task),
    ensures
        task is Log,
        max is None ==> task->max == 50,
        max matches Some(n) ==> (1 <= n <= 500 ==> task->max == n),
        max matches Some(n) ==> (n == 0 ==> task->max == 1),
        max matches Some(n) ==> (n > 500 ==> task->max == 500),
{
}

/// A message or a name that is nothing but white space is refused; any other is used without the
/// white space around it.
pub proof fn empty_names_are_refused(
    text: &str,
    force: bool,
    committed: Result<GitTask, String>,
    deleted: Result<GitTask, String>,
    merged: Result<GitTask, String>,
)
    requires
        call_ensures(git_commit, (text,), committed),
        call_ensures(git_branch_delete, (text, force), deleted),
        call_ensures(git_merge, (text,), merged),
    ensures
        trimmed(text@).len() == 0 ==> committed is Err && deleted is Err && merged is Err,
        trimmed(text@).len() > 0 ==> {
            &&& committed matches Ok(GitTask::Commit { text: t }) && t@ == trimmed(text@)
            &&& deleted matches Ok(GitTask::DeleteBranch { name, force: f }) && name@ == trimmed(
                text@,
            ) && f == force
            &&& merged matches Ok(GitTask::Merge { name }) && name@ == trimmed(text@)
        },
{
}

/// What a run of git printed is its outcome where it succeeded, whatever it complained of; else the
/// error tells what it complained of.
pub proof fn success_tells_the_output(
    args: &Vec<String>,
    success: bool,
    code: Option<i32>,
    stdout: &[u8],
    stderr: &[u8],
    outcome: Result<String, String>,
)
    requires
        call_ensures(git, (args, success, code, stdout, stderr), outcome),
    ensures
        success ==> outcome is Ok && outcome->Ok_0@ == utf8_lossy(stdout@),
        !success ==> outcome is Err && outcome->Err_0@ == failure_text(
            utf8_lossy(stderr@),
            args.deep_view(),
            code,
        ),
{
}

/// The lists are asked for with the fields that are read from them, in the order in which they are
/// read, and the tasks that name nothing are always the same commands.
pub proof fn lists_are_asked_for_as_they_are_read(max: usize)
    ensures
        args_of(GitTask::Branches) == seq![
            "for-each-ref"@,
            "--format=%(refname)%00%(HEAD)%00%(upstream:short)%00%(committerdate:unix)%00%(authorname)%00%(objectname:short)%00%(contents:subject)"@,
            "refs/heads"@,
            "refs/remotes"@,
        ],
        args_of(GitTask::Log { max }) == seq![
            "log"@,
            "--pretty=format:%H\u{1f}%h\u{1f}%an\u{1f}%at\u{1f}%s\u{1f}%D"@,
            "--max-count="@ + decimal(max as nat),
        ],
        args_of(GitTask::StashList) == seq!["stash"@, "list"@, "--format=%gd%x00%at%x00%gs"@],
        args_of(GitTask::Status) == seq!["status"@, "--porcelain"@, "-z"@, "--branch"@],
        args_of(GitTask::Changes) == seq!["status"@, "--porcelain"@],
        args_of(GitTask::Push) == seq!["push"@],
        args_of(GitTask::Pull) == seq!["pull"@],
        args_of(GitTask::Init) == seq!["init"@],
        args_of(GitTask::Fetch) == seq!["fetch"@, "--all"@, "--prune"@],
        args_of(GitTask::StashPop) == seq!["stash"@, "pop"@],
        args_of(GitTask::FindHead) == seq!["rev-parse"@, "--verify"@, "--quiet"@, "HEAD"@],
        args_of(GitTask::UndoCommit) == seq!["reset"@, "--soft"@, "HEAD~1"@],
{
}

/// Changing to a remote branch goes to the local branch of its name where there is one, else it
/// creates one that follows the remote.
pub proof fn remote_branch_is_followed(local: String, remote: String)
    ensures
        remote_task(local, remote, true) == (GitTask::Switch { name: local }),
        remote_task(local, remote, false) == (GitTask::Track { local, remote }),
{
}

/// What cannot be done is refused: a stash of nothing, an amendment or an undoing without a commit.
/// Else the message goes along where there is anything left of it.
pub proof fn impossible_tasks_are_refused(
    changes: &str,
    has_head: bool,
    message: Option<&str>,
    stashed: Result<GitTask, String>,
    amended: Result<GitTask, String>,
    undone: Result<GitTask, String>,
)
    requires
        call_ensures(git_stash_push, (changes, message), stashed),
        call_ensures(git_commit_amend, (has_head, message), amended),
        call_ensures(git_undo_commit, (has_head,), undone),
    ensures
        trimmed(changes@).len() == 0 ==> stashed is Err && stashed->Err_0@ == "没有可贮藏的更改"@,
        trimmed(changes@).len() > 0 ==> (stashed matches Ok(GitTask::StashPush { message: text })
            && text.deep_view() == message_of(message.deep_view())),
        !has_head ==> amended is Err && amended->Err_0@ == "还没有可修正的提交"@,
        has_head ==> (amended matches Ok(GitTask::Amend { message: text }) && text.deep_view()
            == message_of(message.deep_view())),
        !has_head ==> undone is Err && undone->Err_0@ == "还没有可撤销的提交"@,
        has_head ==> undone is Ok && undone->Ok_0 is UndoCommit,
{
}

/// A change is taken back by git where git knows the file, under the path that was asked for; else the
/// file is removed.
pub proof fn discarding_goes_by_the_status(raw: &str, path: &str, plan: DiscardPlan)
    requires
        call_ensures(git_discard, (raw, path), plan),
    ensures
        untracked(raw@) ==> plan is Remove,
        !untracked(raw@) ==> (plan matches DiscardPlan::Run(GitTask::Restore { path: p }) && p@
            == path@),
{
}

/// Every quote around the path of a record is taken off, however many there are: one more in front or
/// behind changes nothing.
pub proof fn quotes_around_a_path_do_not_count(
    status: GitStatusView,
    x: char,
    y: char,
    gap: char,
    path: Seq<char>,
)
    requires
        (x as u32) < 128,
        (y as u32) < 128,
        (gap as u32) < 128,
        !(x == '#' && y == '#' && gap == ' '),
        path.len() > 0,
    ensures
        record_taken(status, seq![x, y, gap] + (seq!['"'] + path)) == record_taken(
            status,
            seq![x, y, gap] + path,
        ),
        record_taken(status, seq![x, y, gap] + path.push('"')) == record_taken(
            status,
            seq![x, y, gap] + path,
        ),
{
    change_is_read(x, y, gap, path);
    change_is_read(x, y, gap, seq!['"'] + path);
    change_is_read(x, y, gap, path.push('"'));
    stripping_takes_all(path, '"');
    stripped_in_front(path, '"');
}

/// What is stripped in front does not depend on one character more behind, unless nothing is left.
proof fn stripped_in_front(s: Seq<char>, c: char)
    ensures
        without_trailing(without_leading(s.push(c), c), c) == without_trailing(
            without_leading(s, c),
            c,
        ),
    decreases s.len(),
{
    let more = s.push(c);
    if s.len() == 0 {
        assert(more.subrange(1, more.len() as int) == s);
    } else if s[0] == c {
        let rest = s.subrange(1, s.len() as int);
        stripped_in_front(rest, c);
        assert(more.subrange(1, more.len() as int) == rest.push(c));
    } else {
        stripping_takes_all(s, c);
    }
}

/// White space around a line of a commit's files does not count, and a line with nothing between its
/// first two tabs tells no file.
#[verifier::rlimit(40)]
pub proof fn file_line_counts_trimmed(line: Seq<char>, state: Seq<char>, more: Seq<char>)
    requires
        state.len() > 0,
        !white(state[0]),
        lacks(state, '\t'),
        more.len() > 0,
        !white(more.last()),
    ensures
        commit_file_on(trimmed(line)) == commit_file_on(line),
        commit_file_on(state + seq!['\t'] + (seq!['\t'] + more)) is None,
{
    trimmed_is_the_middle(line);
    trimmed_stays(trimmed(line));
    let none = Seq::<char>::empty();
    let rest = seq!['\t'] + more;
    split_of_one_part(state, '\t');
    split_of_one_part(none, '\t');
    split_at_separator(none, more, '\t');
    assert(none + seq!['\t'] + more == rest);
    split_at_separator(state, rest, '\t');
    let all = state + seq!['\t'] + rest;
    assert(all[0] == state[0] && all.last() == more.last());
    trimmed_stays(all);
    let parts = split(all, '\t');
    assert(parts == seq![state] + (seq![none] + split(more, '\t')));
    assert(parts[1] == none);
}

/// The status output can be read exactly where each of its records can: a head record, a short one,
/// and one whose path can be cut out.
pub proof fn every_record_must_be_readable(records: Seq<Seq<char>>, record: Seq<char>)
    ensures
        status_readable(seq![]),
        status_readable(records.push(record)) == (status_readable(records) && (has_prefix(
            record,
            "## "@,
        ) || encode_utf8(record).len() < 4 || on_boundary(record, 3))),
{
    let all = records.push(record);
    assert(all[records.len() as int] == record);
    if status_readable(all) {
        assert(is_change(all[records.len() as int]) ==> has_path(record));
        assert forall|i: int| 0 <= i < records.len() && is_change(#[trigger] records[i]) implies has_path(
            records[i],
        ) by {
            assert(all[i] == records[i]);
        }
    }
    if status_readable(records) && (has_prefix(record, "## "@) || encode_utf8(record).len() < 4
        || on_boundary(record, 3)) {
        assert forall|i: int| 0 <= i < all.len() && is_change(#[trigger] all[i]) implies has_path(
            all[i],
        ) by {
            if i < records.len() {
                assert(all[i] == records[i]);
            }
        }
    }
}

/// The status is told where its output can be read, and only there.
pub proof fn readable_status_is_told(raw: &str, status: Option<GitStatus>)
    requires
        call_ensures(git_status, (raw,), status),
    ensures
        status_readable(split(raw@, '\0')) ==> status.deep_view() == Some(told(raw@)),
        !status_readable(split(raw@, '\0')) ==> status is None,
{
}

} // verus!
