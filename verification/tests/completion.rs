use autofix::completion::{
    current_word, path_pairs, prompt_text, skill_pairs, AgentCompleter, Completion, PathQuery,
};

fn words(line: &str) -> (usize, Vec<String>) {
    match AgentCompleter::new("/w".to_string()).complete(line) {
        Completion::Words { start, candidates } => (start, candidates),
        other => panic!("{other:?}"),
    }
}

fn paths(completion: Completion) -> (usize, PathQuery) {
    match completion {
        Completion::Paths { start, query } => (start, query),
        other => panic!("{other:?}"),
    }
}

#[test]
fn commands_are_completed() {
    assert_eq!(words("/ex"), (0, vec!["/exit".to_string(), "/exit-shell".to_string()]));
    assert_eq!(words("/").1.len(), 28);
    assert_eq!(words("/nothing"), (0, vec![]));
    assert_eq!(words("/session"), (0, vec!["/session".to_string()]));
}

#[test]
fn arguments_are_completed_in_place() {
    assert_eq!(
        words("/thinking h"),
        (10, vec!["high".to_string(), "hide".to_string()])
    );
    assert_eq!(words("/config "), (8, vec!["show".to_string(), "reload".to_string()]));
    assert_eq!(words("/stop s"), (6, vec!["set".to_string()]));
    assert_eq!(words("/permissions shell a").1, ["ask", "allow"]);
    assert_eq!(words("/memory a").1, ["add"]);
    assert_eq!(words("/skills e").1, ["enable"]);
    assert_eq!(words("/session re").1, ["resume"]);
    assert_eq!(words("/attach c").1, ["clear"]);
    assert_eq!(words("/unknown x"), (10, vec![]));
    assert_eq!(words("chat text"), (9, vec![]));
}

#[test]
fn paths_are_searched_where_they_lead() {
    let c = AgentCompleter::new("/w".to_string());
    let (start, query) = paths(c.complete("/read src/ma"));
    assert_eq!(start, 6);
    assert_eq!(
        (query.dir.as_str(), query.read_dir.as_str(), query.prefix.as_str()),
        ("src", "/w/src", "ma")
    );
    let (start, query) = paths(c.complete("/attach file é/x"));
    assert_eq!(start, 13);
    assert_eq!((query.dir.as_str(), query.prefix.as_str()), ("é", "x"));
    let (_, query) = paths(c.complete("/list src/"));
    assert_eq!((query.read_dir.as_str(), query.prefix.as_str()), ("/w/src/", ""));
    assert_eq!(words("/read /etc"), (6, vec![]));
    assert_eq!(words("/write ../x"), (7, vec![]));
}

#[test]
fn shell_mode_completes_paths() {
    let mut c = AgentCompleter::new("/w".to_string());
    c.set_shell_mode(true);
    let (start, query) = paths(c.complete("cat a"));
    assert_eq!(start, 4);
    assert_eq!(query.prefix, "a");
    assert_eq!(current_word("x\u{3000}yz"), (4, "yz".to_string()));
    assert_eq!(current_word(""), (0, String::new()));
}

#[test]
fn path_candidates_are_sorted_and_marked() {
    let query = PathQuery {
        dir: "src".to_string(),
        read_dir: "/w/src".to_string(),
        prefix: "m".to_string(),
    };
    let entries = vec![
        ("mod".to_string(), true),
        ("lib.rs".to_string(), false),
        ("main.rs".to_string(), false),
    ];
    assert_eq!(path_pairs(&query, &entries), ["src/main.rs", "src/mod/"]);
}

#[test]
fn skills_are_completed_by_stem() {
    let c = AgentCompleter::new("/w".to_string());
    match c.complete("/skills enable k") {
        Completion::Skills { start, dir, prefix } => {
            assert_eq!((start, dir.as_str(), prefix.as_str()), (15, "/w/skills", "k"));
        }
        other => panic!("{other:?}"),
    }
    let files = vec!["plan-mode.md".to_string(), "kernel.md".to_string(), "kb.md".to_string()];
    assert_eq!(skill_pairs("k", &files), ["kb", "kernel"]);
}

#[test]
fn prompts_tell_the_mode() {
    assert_eq!(prompt_text(false), "\x1b[1m\x1b[32muser>\x1b[0m ");
    assert_eq!(prompt_text(true), "\x1b[1m\x1b[35mshell>\x1b[0m ");
}
