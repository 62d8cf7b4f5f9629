use autofix::workers::{
    epoch_of, is_record_file, list_worker_records, make_worker_id, now_epoch, registry_root,
    registry_root_for_workspace, sanitize, summarize_worker, task_excerpt, worker_id_at,
    worker_log_path, worker_record_path, worker_tail_summary, worker_task_path, workers_dir,
    WorkerRecord, WorkerStatus,
};

fn worker(id: &str, updated_at: u64) -> WorkerRecord {
    WorkerRecord {
        id: id.to_string(),
        name: "parser".to_string(),
        task: "t".to_string(),
        workspace: "/w".to_string(),
        branch: "b".to_string(),
        config_file: "/c".to_string(),
        task_file: "/t".to_string(),
        log_file: "/l".to_string(),
        pid: Some(42),
        status: WorkerStatus::Running,
        created_at: 1,
        updated_at,
        exit_status: None,
    }
}

#[test]
fn registries_lie_in_the_shared_git_directory() {
    assert_eq!(registry_root("/w", Some(".git\n")), "/w/.git/autofix");
    assert_eq!(registry_root("/w", Some("/repo/.git\n")), "/repo/.git/autofix");
    assert_eq!(registry_root("/w", Some("  \n")), "/w/.autofix/autofix");
    assert_eq!(registry_root("/w", None), "/w/.autofix/autofix");
    assert_eq!(registry_root_for_workspace("/w", Some(b"/g\xff\n")), "/g\u{fffd}/autofix");
    assert_eq!(registry_root_for_workspace("/w", None), "/w/.autofix/autofix");
}

#[test]
fn worker_files_lie_side_by_side() {
    assert_eq!(workers_dir("/r"), "/r/workers");
    assert_eq!(worker_record_path("/r", "x"), "/r/workers/x.json");
    assert_eq!(worker_log_path("/r", "x"), "/r/workers/x.log");
    assert_eq!(worker_task_path("/r", "x"), "/r/workers/x.task.md");
    assert!(is_record_file("/r/workers/x.json"));
    assert!(!is_record_file("/r/workers/x.log"));
    assert!(!is_record_file("/r/workers/.json"));
}

#[test]
fn names_hold_plain_characters() {
    assert_eq!(sanitize("Fix the parser!"), "Fix-the-parser");
    assert_eq!(sanitize("--é--"), "");
    assert_eq!(sanitize("a_b-C9"), "a-b-C9");
    assert_eq!(sanitize(&sanitize(" x y ")), sanitize(" x y "));
}

#[test]
fn ids_carry_the_time() {
    assert_eq!(worker_id_at("My Task", 77), "My-Task-77");
    assert!(make_worker_id("n").starts_with("n-"));
    assert_eq!(epoch_of(None), 0);
    assert_eq!(epoch_of(Some(5)), 5);
    assert!(now_epoch() > 1_600_000_000);
}

#[test]
fn workers_are_summed_up() {
    let mut w = worker("id", 2);
    assert_eq!(
        summarize_worker(&w),
        "id parser status=Running pid=42 branch=b workspace=/w"
    );
    w.pid = None;
    w.status = WorkerStatus::Failed;
    w.exit_status = Some(-1);
    assert!(summarize_worker(&w).contains("status=Failed pid=none"));
    assert_eq!(
        worker_tail_summary(&w),
        "worker id\nstatus: Failed\nworkspace: /w\nbranch: b\nconfig: /c\nlog: /l\nexit_status: -1"
    );
    w.status = WorkerStatus::Starting;
    w.exit_status = None;
    assert!(worker_tail_summary(&w).contains("status: Starting"));
    assert!(worker_tail_summary(&w).ends_with("exit_status: none"));
    w.status = WorkerStatus::Finished;
    assert!(summarize_worker(&w).contains("status=Finished"));
}

#[test]
fn latest_workers_come_first() {
    let list = list_worker_records(vec![worker("a", 1), worker("b", 9), worker("c", 4)]);
    let ids: Vec<&str> = list.iter().map(|w| w.id.as_str()).collect();
    assert_eq!(ids, ["b", "c", "a"]);
}

#[test]
fn long_tasks_are_cut_after_eight_lines() {
    assert_eq!(task_excerpt(" \n "), "no task text");
    assert_eq!(task_excerpt("a\nb"), "a\nb");
    assert_eq!(task_excerpt("1\n2\n3\n4\n5\n6\n7\n8"), "1\n2\n3\n4\n5\n6\n7\n8");
    assert_eq!(task_excerpt("1\n2\n3\n4\n5\n6\n7\n8\n9"), "1\n2\n3\n4\n5\n6\n7\n8\n...");
}
