use autofix::context::{
    initial_guide, list_skills, memory_command, merge, notes_value, read_notes, skill_path,
    skills_command, Context, MemoryEffect, SkillsEffect, MEMORY_USAGE, SKILLS_USAGE,
};
use autofix::json::{parse_json, Json};
use autofix::plan::Plan;
use autofix::tools::{ending_of, Ending};

fn list(items: &[&str]) -> Vec<String> {
    items.iter().map(|item| item.to_string()).collect()
}

#[test]
fn bare_prompts_stay() {
    assert_eq!(merge("p", &Context::none()), "p");
}

#[test]
fn memory_command_keeps_the_notes() {
    let (notes, effect) = memory_command(list(&["a"]), "add  b ");
    assert_eq!(notes, ["a", "b"]);
    assert!(matches!(effect, MemoryEffect::Save(_)));
    let (notes, effect) = memory_command(notes, "show");
    assert!(matches!(effect, MemoryEffect::Info(t) if t == "memory notes:\n- a\n- b"));
    let (notes, effect) = memory_command(notes, "reload");
    assert_eq!(notes.len(), 2);
    assert!(matches!(effect, MemoryEffect::Reload));
    for arg in ["add  ", "forget"] {
        let (same, effect) = memory_command(list(&["a"]), arg);
        assert_eq!(same, ["a"]);
        assert!(matches!(effect, MemoryEffect::Error(t) if t == MEMORY_USAGE));
    }
    let (notes, _) = memory_command(notes, "clear");
    let (_, effect) = memory_command(notes, "");
    assert!(matches!(effect, MemoryEffect::Info(t) if t == "memory: no notes"));
}

#[test]
fn saved_notes_come_back() {
    let notes = list(&["a", "b \"c\""]);
    assert_eq!(read_notes(&notes_value(&notes)), Some(notes));
    let read = parse_json(r#"{"notes":["x","y"]}"#).unwrap();
    assert_eq!(read_notes(&read), Some(list(&["x", "y"])));
    for text in [r#"{"notes":["x",1]}"#, r#"{"notes":"x"}"#, "[]"] {
        assert_eq!(read_notes(&parse_json(text).unwrap()), None);
    }
    assert!(matches!(notes_value(&list(&[])), Json::Object(members) if members.len() == 1));
}

#[test]
fn skills_switch() {
    let (active, effect) = skills_command(list(&["a"]), "enable b");
    assert_eq!(active, ["a", "b"]);
    assert!(matches!(effect, SkillsEffect::Save(t) if t == "skill enabled: b"));
    let (active, effect) = skills_command(active, "enable a");
    assert_eq!(active, ["a", "b"]);
    assert!(matches!(effect, SkillsEffect::Info(t) if t == "skill already active: a"));
    let (active, effect) = skills_command(active, "show");
    assert!(matches!(effect, SkillsEffect::Info(t) if t == "active skills: a, b"));
    let (active, effect) = skills_command(active, "disable a");
    assert_eq!(active, ["b"]);
    assert!(matches!(effect, SkillsEffect::Save(t) if t == "skill disabled: a"));
    let (active, effect) = skills_command(active, "disable a");
    assert!(matches!(effect, SkillsEffect::Info(t) if t == "skill not active: a"));
    assert!(matches!(skills_command(active, "list").1, SkillsEffect::List));
    assert!(matches!(skills_command(list(&[]), "reload").1, SkillsEffect::Reload));
    assert!(matches!(skills_command(list(&[]), "").1, SkillsEffect::Info(t) if t == "active skills: none"));
    assert!(matches!(skills_command(list(&[]), "enable  ").1, SkillsEffect::Error(t) if t == SKILLS_USAGE));
    assert!(matches!(skills_command(list(&[]), "what").1, SkillsEffect::Error(t) if t == SKILLS_USAGE));
    assert_eq!(list_skills(&list(&["b"]), &list(&["a", "b"])), "  a\n* b");
    assert_eq!(list_skills(&list(&[]), &list(&[])), "skills: none");
    assert_eq!(skill_path("/w/skills", "a"), "/w/skills/a.md");
}

#[test]
fn guides_begin_with_the_older_file() {
    let some = |t: &str| Some(t.to_string());
    assert_eq!(initial_guide(&None, &some("b")), some("b"));
    assert_eq!(initial_guide(&some("a"), &some("b")), None);
    assert_eq!(initial_guide(&None, &None), None);
}

#[test]
fn plans_are_kept() {
    let mut plan = Plan::new("task");
    plan.wrote("a.rs");
    plan.wrote("b.rs");
    plan.wrote("a.rs");
    assert_eq!(
        plan.text(),
        "# PLAN\n\n## Summary\n\n- task\n\n## Files Changed\n\n- a.rs\n- b.rs\n\n## Next Steps\n\n- none\n"
    );
    plan.interrupt("s1");
    assert_eq!(
        plan.next,
        ["interrupted; resume with /session resume s1 or --resume-session s1"]
    );
    plan.close(&ending_of(r#"{"type":"blocked","reason":"no tree"}"#).unwrap());
    assert_eq!(plan.next, ["blocked: no tree"]);
    plan.close(&Ending::NeedsWorker { task: "t".to_string() });
    assert_eq!(plan.next, ["worker: t"]);
    plan.close(&ending_of(r#" {"type":"final","summary":"done"} "#).unwrap());
    assert_eq!(plan.summary, ["done"]);
    assert!(plan.next.is_empty());
    assert!(ending_of("plain").is_none());
    assert!(ending_of(r#"{"type":"tool_calls","calls":[]}"#).is_none());
    assert!(matches!(
        ending_of(r#"{"type":"needs_worker"}"#),
        Some(Ending::NeedsWorker { task }) if task.is_empty()
    ));
}
