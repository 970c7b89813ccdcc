use dsh_desktop::git::{
    checkout_remote, failure, git, git_branch_delete, git_branches, git_checkout, git_commit,
    git_commit_amend, git_commit_files, git_discard, git_init, git_log, git_merge, git_stash_list,
    git_stash_push, git_status, git_undo_commit, parse_branch, parse_commit, parse_log,
    require_repo, run_error, sort_branches, CheckoutPlan, DiscardPlan, GitBranch, GitTask,
};

fn args(task: &GitTask) -> Vec<String> {
    task.args()
}

fn strings(list: &[&str]) -> Vec<String> {
    list.iter().map(|s| s.to_string()).collect()
}

#[test]
fn git_branches_and_remote_checkout() {
    let raw = "refs/heads/main\0*\0\01700000000\0t\0abc1234\0init\n\
refs/remotes/origin/main\0 \0\01700000000\0t\0abc1234\0init\n\
refs/remotes/origin/HEAD\0 \0\01700000000\0t\0abc1234\0init\n";
    let bs = git_branches(raw);
    assert_eq!(bs.len(), 2);
    let local = bs.iter().find(|b| b.name == "main" && b.kind == "local");
    let remote = bs.iter().find(|b| b.name == "origin/main" && b.kind == "remote");
    assert!(local.is_some(), "{:?}", bs);
    assert!(remote.is_some(), "{:?}", bs);
    assert!(local.unwrap().current);

    match git_checkout("origin/main", false) {
        Ok(CheckoutPlan::Remote { local, remote }) => {
            let probe = GitTask::FindBranch { name: local.clone() };
            assert_eq!(
                args(&probe),
                strings(&["show-ref", "--verify", "--quiet", "refs/heads/main"])
            );
            let there = checkout_remote(local.clone(), remote.clone(), true);
            assert_eq!(args(&there), strings(&["checkout", "main"]));
            let new = checkout_remote(local, remote, false);
            assert_eq!(
                args(&new),
                strings(&["checkout", "-b", "main", "--track", "origin/main"])
            );
        }
        _ => panic!("a remote branch is expected"),
    }
    let status = git_status("## main\0").unwrap();
    assert_eq!(status.branch, "main");
}

#[test]
fn checkout_names_are_checked() {
    assert_eq!(git_checkout("  ", false).err().unwrap(), "分支名不能为空");
    assert_eq!(git_checkout("origin/", false).err().unwrap(), "无法切换到 origin/");
    assert_eq!(git_checkout(" origin/HEAD ", false).err().unwrap(), "无法切换到 origin/HEAD");
    match git_checkout(" origin/x ", true) {
        Ok(CheckoutPlan::Run(task)) => {
            assert_eq!(args(&task), strings(&["checkout", "-b", "origin/x"]))
        }
        _ => panic!("a new branch is expected"),
    }
    match git_checkout("dev", false) {
        Ok(CheckoutPlan::Run(task)) => assert_eq!(args(&task), strings(&["checkout", "dev"])),
        _ => panic!("a local branch is expected"),
    }
}

#[test]
fn branches_are_sorted_by_activity() {
    let raw = "refs/heads/old\0 \0\010\0a\0s\0m\nrefs/heads/new\0 \0\020\0a\0s\0m\n\
refs/heads/cur\0*\0origin/cur\05\0Ann\0abc\0subject line\nrefs/heads/also\0 \0\020\0a\0s\0m\n\
refs/tags/v1\0 \0\099\0a\0s\0m\n\n";
    let names: Vec<String> = git_branches(raw).into_iter().map(|b| b.name).collect();
    assert_eq!(names, vec!["cur", "new", "also", "old"]);
}

#[test]
fn branch_fields_are_read() {
    let line: Vec<char> =
        "refs/heads/cur\0*\0origin/cur\0-5\0 Ann \0abc\0subject line\0\0".chars().collect();
    let branch = parse_branch(&line).unwrap();
    assert_eq!(branch.upstream, "origin/cur");
    assert_eq!(branch.time, -5);
    assert_eq!(branch.author, "Ann");
    assert_eq!(branch.short, "abc");
    assert_eq!(branch.subject, "subject line");
    let bare: Vec<char> = "refs/remotes/o/x".chars().collect();
    let branch = parse_branch(&bare).unwrap();
    assert_eq!((branch.name.as_str(), branch.kind.as_str()), ("o/x", "remote"));
    assert_eq!((branch.current, branch.time), (false, 0));
    assert!(parse_branch(&"\0\0".chars().collect()).is_none());
    let mk = |name: &str, current: bool, time: i64| GitBranch {
        name: name.to_string(),
        kind: "local".to_string(),
        current,
        upstream: String::new(),
        time,
        author: String::new(),
        short: String::new(),
        subject: String::new(),
    };
    let sorted = sort_branches(&vec![mk("a", false, 9), mk("b", true, i64::MIN), mk("c", false, 9)]);
    let names: Vec<&str> = sorted.iter().map(|b| b.name.as_str()).collect();
    assert_eq!(names, vec!["b", "a", "c"]);
}

#[test]
fn status_is_read() {
    let raw = "## dev...origin/dev [ahead 1, behind 2]\0M  staged.rs\0 M tree.rs\0MM both.rs\0\
?? \"new file\"\0AB\0";
    let status = git_status(raw).unwrap();
    assert_eq!(status.branch, "dev");
    assert_eq!((status.ahead, status.behind), (0, 0));
    let staged: Vec<(&str, &str)> =
        status.staged.iter().map(|c| (c.status.as_str(), c.path.as_str())).collect();
    assert_eq!(staged, vec![("M", "staged.rs"), ("M", "both.rs")]);
    let unstaged: Vec<(&str, &str)> =
        status.unstaged.iter().map(|c| (c.status.as_str(), c.path.as_str())).collect();
    assert_eq!(unstaged, vec![("M", "tree.rs"), ("M", "both.rs"), ("?", "new file")]);
    assert!(status.staged.iter().all(|c| c.staged));
    assert!(status.unstaged.iter().all(|c| !c.staged));
}

#[test]
fn status_of_new_repository_is_read() {
    assert_eq!(git_status("## No commits yet on main\0").unwrap().branch, "main");
    assert_eq!(git_status("").unwrap().branch, "HEAD");
    assert_eq!(git_status("A  文件.txt\0").unwrap().staged[0].path, "文件.txt");
    assert!(git_status("a字bc\0").is_none());
}

#[test]
fn changes_are_taken_back() {
    assert!(matches!(git_discard("?? new\0", "new"), DiscardPlan::Remove));
    match git_discard(" M old\0", "old") {
        DiscardPlan::Run(task) => assert_eq!(args(&task), strings(&["checkout", "--", "old"])),
        _ => panic!("git should restore it"),
    }
    assert!(matches!(git_discard("", "x"), DiscardPlan::Run(_)));
}

#[test]
fn failures_are_explained() {
    let task = strings(&["push"]);
    assert_eq!(git(&task, true, Some(0), b"out\n", b"warn"), Ok("out\n".to_string()));
    assert_eq!(git(&task, false, Some(1), b"", b" rejected \n"), Err("rejected".to_string()));
    assert_eq!(
        git(&strings(&["stash", "pop"]), false, Some(128), b"", b""),
        Err("git stash pop 失败（exit Some(128)）".to_string())
    );
    let long = "错".repeat(601);
    assert_eq!(failure(&long, &task, None), format!("{}…", "错".repeat(600)));
    assert_eq!(failure(&"x".repeat(600), &task, None), "x".repeat(600));
    let wide = "错".repeat(201);
    assert_eq!(failure(&wide, &task, None), format!("{}…", wide));
    assert_eq!(
        run_error(true, "x"),
        "未检测到 git 命令。请安装 Git（macOS: xcode-select --install / Windows: Git for Windows）后重试。"
    );
    assert_eq!(run_error(false, "denied"), "执行 git 失败：denied");
    assert_eq!(require_repo(true), Ok(()));
    assert_eq!(require_repo(false), Err("当前目录不是 git 仓库".to_string()));
}

#[test]
fn commands_are_spelled_out() {
    let s = |t: &str| t.to_string();
    let cases: Vec<(GitTask, Vec<&str>)> = vec![
        (GitTask::Status, vec!["status", "--porcelain", "-z", "--branch"]),
        (GitTask::PathStatus { path: s("p") }, vec!["status", "--porcelain", "-z", "--", "p"]),
        (GitTask::Changes, vec!["status", "--porcelain"]),
        (GitTask::Add { paths: vec![s("a"), s("b")] }, vec!["add", "--", "a", "b"]),
        (GitTask::Unstage { paths: vec![s("a")] }, vec!["reset", "HEAD", "--", "a"]),
        (GitTask::Push, vec!["push"]),
        (GitTask::Pull, vec!["pull"]),
        (GitTask::Diff { path: s("p"), staged: false }, vec!["diff", "--no-color", "--", "p"]),
        (
            GitTask::Diff { path: s("p"), staged: true },
            vec!["diff", "--no-color", "--cached", "--", "p"],
        ),
        (GitTask::CommitFiles { hash: s("h") }, vec!["show", "--name-status", "--format=", "h"]),
        (GitTask::CommitDiff { hash: s("h") }, vec!["show", "--no-color", "--format=", "h"]),
        (GitTask::Revert { hash: s("h") }, vec!["revert", "--no-edit", "h"]),
        (GitTask::Fetch, vec!["fetch", "--all", "--prune"]),
        (GitTask::StashList, vec!["stash", "list", "--format=%gd%x00%at%x00%gs"]),
        (GitTask::StashPop, vec!["stash", "pop"]),
        (GitTask::FindHead, vec!["rev-parse", "--verify", "--quiet", "HEAD"]),
    ];
    for (task, expected) in cases {
        assert_eq!(args(&task), strings(&expected));
    }
    assert_eq!(
        args(&GitTask::Branches)[1],
        "--format=%(refname)%00%(HEAD)%00%(upstream:short)%00%(committerdate:unix)%00%(authorname)%00%(objectname:short)%00%(contents:subject)"
    );
    assert_eq!(args(&GitTask::Branches)[2..], strings(&["refs/heads", "refs/remotes"])[..]);
}

#[test]
fn requests_are_checked() {
    assert_eq!(git_commit(" \n").err().unwrap(), "提交信息不能为空");
    assert_eq!(args(&git_commit(" msg \n").ok().unwrap()), strings(&["commit", "-m", "msg"]));
    assert!(git_init(true).is_none());
    assert_eq!(args(&git_init(false).unwrap()), strings(&["init"]));
    assert_eq!(git_stash_push(" \n", None).err().unwrap(), "没有可贮藏的更改");
    assert_eq!(
        args(&git_stash_push(" M a", Some(" wip ")).ok().unwrap()),
        strings(&["stash", "push", "-u", "-m", "wip"])
    );
    assert_eq!(
        args(&git_stash_push(" M a", Some("  ")).ok().unwrap()),
        strings(&["stash", "push", "-u"])
    );
    assert_eq!(git_commit_amend(false, None).err().unwrap(), "还没有可修正的提交");
    assert_eq!(
        args(&git_commit_amend(true, None).ok().unwrap()),
        strings(&["commit", "--amend", "--no-edit"])
    );
    assert_eq!(
        args(&git_commit_amend(true, Some("m")).ok().unwrap()),
        strings(&["commit", "--amend", "-m", "m"])
    );
    assert_eq!(git_undo_commit(false).err().unwrap(), "还没有可撤销的提交");
    assert_eq!(
        args(&git_undo_commit(true).ok().unwrap()),
        strings(&["reset", "--soft", "HEAD~1"])
    );
    assert_eq!(git_branch_delete("", false).err().unwrap(), "分支名不能为空");
    assert_eq!(
        args(&git_branch_delete(" b ", false).ok().unwrap()),
        strings(&["branch", "-d", "b"])
    );
    assert_eq!(
        args(&git_branch_delete("b", true).ok().unwrap()),
        strings(&["branch", "-D", "b"])
    );
    assert_eq!(git_merge(" ").err().unwrap(), "分支名不能为空");
    assert_eq!(args(&git_merge(" b").ok().unwrap()), strings(&["merge", "b"]));
}

#[test]
fn log_is_read() {
    let expected = "--pretty=format:%H\u{1f}%h\u{1f}%an\u{1f}%at\u{1f}%s\u{1f}%D";
    assert_eq!(args(&git_log(None)), strings(&["log", expected, "--max-count=50"]));
    assert_eq!(args(&git_log(Some(0)))[2], "--max-count=1");
    assert_eq!(args(&git_log(Some(9999)))[2], "--max-count=500");
    assert_eq!(args(&git_log(Some(7)))[2], "--max-count=7");
    let raw = "h1\u{1f}s1\u{1f}Ann\u{1f}1700000000\u{1f}first\u{1f}HEAD -> main\nbroken line\n\
h2\u{1f}s2\u{1f}Bob\u{1f}x\u{1f}second";
    let commits = parse_log(raw);
    assert_eq!(commits.len(), 2);
    assert_eq!(commits[0].hash, "h1");
    assert_eq!(commits[0].short, "s1");
    assert_eq!(commits[0].author, "Ann");
    assert_eq!(commits[0].time, 1_700_000_000);
    assert_eq!(commits[0].subject, "first");
    assert_eq!(commits[0].refs, "HEAD -> main");
    assert_eq!((commits[1].time, commits[1].refs.as_str()), (0, ""));
    assert!(parse_commit(&"a\u{1f}b".chars().collect()).is_none());
}

#[test]
fn commit_files_and_stashes_are_read() {
    let files = git_commit_files("M\tsrc/a.rs\n\nR100\told\tnew\nlonely\n");
    let read: Vec<(&str, &str)> =
        files.iter().map(|f| (f.status.as_str(), f.path.as_str())).collect();
    assert_eq!(read, vec![("M", "src/a.rs"), ("R100", "old")]);
    let stashes = git_stash_list("stash@{0}\01700000000\0 WIP on main \nstash@{1}\0x\n");
    assert_eq!(stashes.len(), 2);
    assert_eq!((stashes[0].index, stashes[0].time), (0, 1_700_000_000));
    assert_eq!(stashes[0].message, "WIP on main");
    assert_eq!((stashes[1].index, stashes[1].time), (1, 0));
    assert_eq!(stashes[1].message, "");
}
