use autofix::config::AgentRole;
use autofix::provider::{Message, Role};
use autofix::sessions::{
    list_session_records, make_session_id, one_line_excerpt, saved_record, session_command,
    session_history_summary, session_id_at, session_record_path, session_tail_summary,
    session_title_from_input, sessions_dir, summarize_session, summarize_sessions, SessionEffect,
    SessionRecord,
};

#[test]
fn resume_session_copies_history_and_messages() {
    let mut source = SessionRecord::new(
        "/tmp/workspace".to_string(),
        AgentRole::Master,
        "session-old".to_string(),
    );
    source.title = Some("kernel backport".to_string());
    source.command_history.push("/help".to_string());
    source.messages.push(Message {
        role: Role::User,
        content: "check the diff".to_string(),
    });

    let resumed = SessionRecord::resume_from(
        &source,
        "/tmp/workspace".to_string(),
        AgentRole::Master,
        "session-new".to_string(),
    );

    assert_eq!(resumed.id, "session-new");
    assert_eq!(resumed.resumed_from.as_deref(), Some("session-old"));
    assert_eq!(resumed.title.as_deref(), Some("kernel backport"));
    assert_eq!(resumed.command_history, source.command_history);
    assert_eq!(resumed.messages.len(), 1);
}

#[test]
fn history_summary_includes_commands() {
    let mut record = SessionRecord::new(
        "/tmp/workspace".to_string(),
        AgentRole::Master,
        "session-old".to_string(),
    );
    record.command_history.push("/config show".to_string());
    record.command_history.push("/session history".to_string());

    let summary = session_history_summary(&record);
    assert!(summary.contains("/config show"));
    assert!(summary.contains("/session history"));
}

fn record() -> SessionRecord {
    SessionRecord::new_at("/w".to_string(), AgentRole::Worker, "s1".to_string(), 7)
}

fn message(role: Role, content: &str) -> Message {
    Message { role, content: content.to_string() }
}

#[test]
fn sessions_begin_empty() {
    let r = record();
    assert_eq!((r.created_at, r.updated_at), (7, 7));
    assert_eq!(r.title, None);
    assert!(r.command_history.is_empty() && r.messages.is_empty());
    assert_eq!(
        summarize_session(&r),
        "s1 untitled role=Worker commands=0 messages=0 workspace=/w resumed_from=none updated_at=7"
    );
    assert_eq!(session_history_summary(&r), "session history: none");
    let now = SessionRecord::new("/w".to_string(), AgentRole::Master, "x".to_string());
    assert_eq!(now.created_at, now.updated_at);
    assert!(now.created_at > 1_600_000_000);
}

#[test]
fn records_keep_the_last_of_everything() {
    let mut r = record();
    for i in 0..310 {
        r.command_history.push(i.to_string());
    }
    for i in 0..130 {
        r.messages.push(message(Role::User, &i.to_string()));
    }
    let saved = saved_record(&r);
    assert_eq!(saved.command_history.len(), 300);
    assert_eq!(saved.command_history[0], "10");
    assert_eq!(saved.messages.len(), 120);
    assert_eq!(saved.messages[0].content, "10");
    assert_eq!(r.command_history.len(), 310);
    r.touch_at(9);
    assert_eq!(r.updated_at, 9);
    assert_eq!(r.command_history, saved.command_history);
    r.touch();
    assert!(r.updated_at > 1_600_000_000);
}

#[test]
fn inputs_name_and_fill_a_session() {
    let mut r = record();
    r.remember_at("fix the\n build ", 8);
    r.remember_at("again", 9);
    assert_eq!(r.title.as_deref(), Some("fix the  build"));
    assert_eq!(r.command_history, ["fix the\n build ", "again"]);
    assert_eq!(r.updated_at, 9);
    r.remember("third");
    assert_eq!(r.command_history.len(), 3);
    let talk = vec![message(Role::System, "a"), message(Role::User, "b")];
    r.snapshot_at(&talk, 11);
    assert_eq!(r.messages.len(), 2);
    assert_eq!(r.messages[1].content, "b");
    r.snapshot(&talk);
    let again =
        SessionRecord::resume_from_at(&r, "/v".to_string(), AgentRole::Master, "s2".to_string(), 12);
    assert_eq!(again.messages.len(), 2);
    assert_eq!((again.created_at, again.updated_at), (12, 12));
    assert_eq!(again.workspace, "/v");
}

#[test]
fn tails_show_the_last_commands_and_messages() {
    let mut r = record();
    for i in 0..10 {
        r.command_history.push(format!("c{i}"));
    }
    for i in 0..5 {
        r.messages.push(message(Role::Assistant, &format!("m{i}\nx")));
    }
    r.title = Some("  ".to_string());
    r.resumed_from = Some("s0".to_string());
    assert_eq!(
        session_tail_summary(&r),
        "session s1\ntitle: untitled\nworkspace: /w\nrole: Worker\ncommands: 10\nmessages: 5\nresumed_from: s0\nlast_commands:\nc2\nc3\nc4\nc5\nc6\nc7\nc8\nc9\nlast_messages:\nAssistant: m1 x\nAssistant: m2 x\nAssistant: m3 x\nAssistant: m4 x"
    );
    assert!(session_tail_summary(&record()).ends_with("last_commands:\nnone\nlast_messages:\nnone"));
}

#[test]
fn titles_are_short() {
    assert_eq!(session_title_from_input(" \n "), "interactive session");
    assert_eq!(session_title_from_input("a\nb\nc\nd\ne"), "a b c d");
    assert_eq!(session_title_from_input(&"é".repeat(130)), "é".repeat(120));
    assert_eq!(one_line_excerpt(""), "");
}

#[test]
fn session_names_and_places_are_built() {
    assert_eq!(session_id_at(AgentRole::Master, 12, 34), "master-12-34");
    assert!(make_session_id(AgentRole::Worker, 5).starts_with("worker-"));
    assert!(make_session_id(AgentRole::Worker, 5).ends_with("-5"));
    assert_eq!(sessions_dir("/r"), "/r/sessions");
    assert_eq!(session_record_path("/r", "id"), "/r/sessions/id.json");
}

#[test]
fn latest_sessions_come_first() {
    let at = |id: &str, t: u64| SessionRecord::new_at(String::new(), AgentRole::Master, id.to_string(), t);
    let sorted = list_session_records(vec![at("a", 1), at("b", 5), at("c", 3)]);
    let ids: Vec<&str> = sorted.iter().map(|r| r.id.as_str()).collect();
    assert_eq!(ids, ["b", "c", "a"]);
    assert_eq!(summarize_sessions(&sorted).lines().count(), 3);
    assert_eq!(summarize_sessions(&vec![]), "sessions: none");
}

#[test]
fn session_commands_are_understood() {
    let mut r = record();
    r.command_history.push("/help".to_string());
    let told = |arg: &str| match session_command(&r, arg) {
        SessionEffect::Info(t) => t,
        other => panic!("{other:?}"),
    };
    assert_eq!(told(""), session_tail_summary(&r));
    assert_eq!(told("show"), session_tail_summary(&r));
    assert_eq!(told("history"), "session history:\n1: /help");
    assert!(matches!(session_command(&r, "list"), SessionEffect::List));
    assert!(matches!(session_command(&r, "save"), SessionEffect::Save));
    assert!(matches!(session_command(&r, "new"), SessionEffect::Fresh));
    match session_command(&r, "resume  s9 ") {
        SessionEffect::Resume { id } => assert_eq!(id, "s9"),
        other => panic!("{other:?}"),
    }
    for wrong in ["resume", "resume  ", "bogus"] {
        match session_command(&r, wrong) {
            SessionEffect::Error(t) => assert!(t.starts_with("usage: /session")),
            other => panic!("{other:?}"),
        }
    }
}
