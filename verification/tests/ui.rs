use autofix::thinking::{filter_tui_content_delta, strip_think_blocks, AnswerStream};
use autofix::ui;
use autofix::ui::MarkdownStream;

fn streamed(parts: &[&str]) -> String {
    let mut stream = MarkdownStream::new();
    let mut out = String::new();
    for part in parts {
        out.push_str(&stream.push(part));
    }
    out.push_str(&stream.finish());
    out
}

#[test]
fn markdown_is_the_same_however_it_is_cut() {
    let text = "# Head\n- item\n1. one\n```rs\nlet x;\n```\n> quote\nplain `code` **bold**";
    let whole = ui::render_markdown(text);
    let chars: Vec<String> = text.chars().map(|c| c.to_string()).collect();
    let parts: Vec<&str> = chars.iter().map(|s| s.as_str()).collect();
    assert_eq!(streamed(&parts), whole);
    assert_eq!(streamed(&[&text[..7], &text[7..]]), whole);
}

#[test]
fn plain_lines_are_printed_as_they_are() {
    assert_eq!(ui::render_markdown("hello\n"), "hello\n\x1b[0m");
}

#[test]
fn headings_and_items_are_recognised() {
    assert_eq!(ui::markdown_heading("## Two"), Some((2, "Two".to_string())));
    assert_eq!(ui::markdown_heading("####### Seven"), None);
    assert_eq!(ui::markdown_heading("#None"), None);
    assert_eq!(
        ui::ordered_list_item("12. twelve"),
        Some(("12".to_string(), "twelve".to_string()))
    );
    assert_eq!(ui::bullet_list_item("- x"), Some("x".to_string()));
    assert_eq!(ui::bullet_list_item("-x"), None);
}

#[test]
fn banner_text_is_centered_and_cut() {
    assert_eq!(ui::center_banner_text("ab", 6), "  ab  ");
    assert_eq!(ui::center_banner_text("abc", 6), " abc  ");
    assert_eq!(ui::fit_banner_text("abcdef", 3), "abc");
}

#[test]
fn banner_warns_of_full_access_only() {
    let show = |access: &str| {
        ui::banner("T", "S", "Ollama", "m", "/w", access, &vec!["/help commands".to_string()], "tip")
    };
    assert!(show("full-system").contains("full system access is enabled"));
    assert!(!show("workspace").contains("full system access is enabled"));
    assert!(show("workspace").contains("/help commands"));
}

#[test]
fn notices_are_labelled() {
    assert_eq!(ui::info("x"), "\x1b[1m\x1b[34minfo>\x1b[0m x\n");
    assert_eq!(ui::error("x"), "\x1b[1m\x1b[31merror>\x1b[0m x\n");
    assert_eq!(ui::divider(), format!("\x1b[2m{}\x1b[0m\n", "─".repeat(60)));
    assert_eq!(ui::clear_screen(), "\x1b[2J\x1b[H");
    assert!(ui::tool_result("run", "done").starts_with("\x1b[1m\x1b[35mtool>\x1b[0m "));
    assert!(ui::help_text().contains("/search <query>"));
}

#[test]
fn think_blocks_leave_the_history() {
    assert_eq!(strip_think_blocks("<think>a</think> b"), "b");
    assert_eq!(strip_think_blocks("a <think>b"), "a");
    assert_eq!(strip_think_blocks("a</think>b"), "a</think>b");
    assert_eq!(strip_think_blocks("  x  "), "x");
    assert_eq!(strip_think_blocks("<th<think>x</think>ink>"), "<think>");
}

#[test]
fn think_blocks_are_filtered_over_pieces() {
    let mut inline = false;
    let mut hidden = String::new();
    let mut inline_shown = false;
    let mut seen = String::new();
    for delta in ["a<think>b", "c</think>d", "e"] {
        hidden.push_str(&filter_tui_content_delta(delta, false, &mut inline));
        seen.push_str(&filter_tui_content_delta(delta, true, &mut inline_shown));
    }
    assert_eq!(hidden, "ade");
    assert_eq!(seen, "abcde");
    assert!(!inline && !inline_shown);
}

#[test]
fn hidden_thinking_prints_the_answer_alone() {
    let mut stream = AnswerStream::new(false);
    let mut out = stream.stream_thinking_delta("secret");
    out.push_str(&stream.stream_content_delta("<think>more</think>answer\n"));
    out.push_str(&stream.finish());
    assert_eq!(out, "answer\n\x1b[0m\n");
}

#[test]
fn shown_thinking_is_announced_once() {
    let mut stream = AnswerStream::new(true);
    let mut out = stream.stream_thinking_delta("one");
    out.push_str(&stream.stream_thinking_delta(" two"));
    out.push_str(&stream.stream_content_delta("done\n"));
    out.push_str(&stream.finish());
    assert_eq!(
        out,
        "\x1b[2m[thinking] one two\x1b[0m\n\x1b[1m\x1b[36mautofix>\x1b[0m done\n\x1b[0m\n"
    );
}
