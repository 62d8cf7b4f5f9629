use autofix::workers::{
    agents_command, copied_files, plan_worker, summarize_workers, worker_report, AgentsEffect,
    WorkerStatus, AGENTS_USAGE,
};
use autofix::worktrees::{
    at_repository_root, auto_worktree_name, worktree_command, worktree_path, WorktreeEffect,
    WORKTREE_USAGE,
};

fn git(arg: &str) -> Vec<String> {
    match worktree_command(arg) {
        WorktreeEffect::Git { args } => args,
        other => panic!("{other:?}"),
    }
}

#[test]
fn worktree_commands_ask_git() {
    assert_eq!(git(""), ["worktree", "list"]);
    assert_eq!(git("status"), ["worktree", "list"]);
    assert_eq!(git("list"), ["worktree", "list", "--porcelain"]);
    assert_eq!(git("prune"), ["worktree", "prune"]);
    assert_eq!(git("remove ../a"), ["worktree", "remove", "../a"]);
    assert!(matches!(worktree_command("auto"), WorktreeEffect::Auto));
    assert!(matches!(worktree_command("switch ../a"), WorktreeEffect::Switch { path } if path == "../a"));
    for arg in ["add", "add a b c", "switch  ", "remove  ", "what"] {
        assert!(matches!(worktree_command(arg), WorktreeEffect::Error(t) if t == WORKTREE_USAGE));
    }
}

#[test]
fn worktrees_are_added_with_their_branch() {
    match worktree_command("add ../worktrees/fix fix") {
        WorktreeEffect::Add { args, path } => {
            assert_eq!(args, ["worktree", "add", "-b", "fix", "../worktrees/fix"]);
            assert_eq!(path, "../worktrees/fix");
        }
        other => panic!("{other:?}"),
    }
    match worktree_command("add ../fix") {
        WorktreeEffect::Add { args, path } => {
            assert_eq!(args, ["worktree", "add", "../fix"]);
            assert_eq!(path, "../fix");
        }
        other => panic!("{other:?}"),
    }
}

#[test]
fn worktrees_lie_beside_the_workspace() {
    assert_eq!(worktree_path("/home/repo", "x"), "/home/worktrees/x");
    assert_eq!(worktree_path("/", "x"), "/worktrees/x");
    assert_eq!(auto_worktree_name(7), "autofix-7");
    assert!(at_repository_root("/r", "/r/", "/r/.git", "/r/.git"));
    assert!(!at_repository_root("/r/sub", "/r", "/r/.git", "/r/.git"));
    assert!(!at_repository_root("/t", "/t", "/r/.git/worktrees/t", "/r/.git"));
}

#[test]
fn agents_commands_are_read() {
    assert!(matches!(agents_command(""), AgentsEffect::List));
    assert!(matches!(agents_command("list"), AgentsEffect::List));
    assert!(matches!(agents_command("read  w-1"), AgentsEffect::Read { id } if id == "w-1"));
    match agents_command("spawn parser-fix | isolate | patch") {
        AgentsEffect::Spawn { name, task } => {
            assert_eq!(name, "parser-fix");
            assert_eq!(task, "isolate | patch");
        }
        other => panic!("{other:?}"),
    }
    for arg in ["spawn x", "spawn | t", "spawn n |", "read  ", "what"] {
        assert!(matches!(agents_command(arg), AgentsEffect::Error(t) if t == AGENTS_USAGE), "{arg}");
    }
}

#[test]
fn workers_are_planned_and_followed() {
    let mut w = plan_worker("/r/.git/autofix", "/r", "my fix", "do it", 9);
    assert_eq!(w.id, "my-fix-9");
    assert_eq!(w.name, "my fix");
    assert_eq!(w.branch, "my-fix-9");
    assert_eq!(w.workspace, "/worktrees/my-fix-9");
    assert_eq!(w.config_file, "/worktrees/my-fix-9/autofix_config.json");
    assert_eq!(w.task_file, "/r/.git/autofix/workers/my-fix-9.task.md");
    assert_eq!(w.log_file, "/r/.git/autofix/workers/my-fix-9.log");
    assert_eq!((w.pid, w.status, w.created_at), (None, WorkerStatus::Starting, 9));
    w.mark_started(Some(4), 10);
    assert_eq!((w.pid, w.status, w.updated_at), (Some(4), WorkerStatus::Running, 10));
    let mut failed = w.clone();
    w.mark_ended(Some(0), 11);
    assert_eq!((w.exit_status, w.status, w.updated_at), (Some(0), WorkerStatus::Finished, 11));
    failed.mark_ended(None, 11);
    assert_eq!((failed.exit_status, failed.status), (None, WorkerStatus::Failed));
    assert!(worker_report(&w).ends_with("\ntask:\ndo it"));
    assert_eq!(summarize_workers(&vec![]), "workers: none");
    assert_eq!(summarize_workers(&vec![w, failed]).lines().count(), 2);
    assert_eq!(copied_files(), ["AGENT.md", "PLAN.md", "memory.json", "skills"]);
}
