use autofix::config::PermissionMode;
use autofix::provider::Delta;
use autofix::tools::ToolCall;
use autofix::tui::{
    centered_rect, clamp_scroll_offset, first_line_shown, handle_mouse_event,
    is_on_transcript_scrollbar, max_scroll_offset, mouse_row_to_scroll_offset, next_history_index,
    previous_history_index, render_markdown_lines, render_transcript_item, state_lines,
    transcript_content_len, transcript_lines, transcript_viewport_height, trim_transcript,
    tui_heading, tui_help_panel, tui_layout, Color, KeyCode, MouseEvent, MouseKind, Progress,
    Reaction, Rect, Speaker, StyledLine, TranscriptItem, TuiAnswer, TuiState,
};

fn area(x: u16, y: u16, width: u16, height: u16) -> Rect {
    Rect { x, y, width, height }
}

fn text(line: &StyledLine) -> String {
    line.spans.iter().map(|span| span.text.as_str()).collect()
}

fn item(speaker: Speaker, content: &str) -> TranscriptItem {
    TranscriptItem::new(speaker, content.to_string())
}

fn typed(state: &mut TuiState, input: &str) -> Reaction {
    for c in input.chars() {
        state.on_key(KeyCode::Char(c), false);
    }
    state.on_key(KeyCode::Enter, false)
}

#[test]
fn screens_are_split_into_parts() {
    let layout = tui_layout(area(0, 0, 100, 40));
    assert_eq!(layout.title, area(0, 0, 70, 5));
    assert_eq!(layout.state, area(70, 0, 30, 5));
    assert_eq!(layout.transcript, area(0, 5, 100, 32));
    assert_eq!(layout.input, area(0, 37, 100, 3));
    assert_eq!(centered_rect(80, 50, area(0, 0, 100, 40)), area(10, 10, 80, 20));
}

#[test]
fn scroll_offsets_are_clamped() {
    assert_eq!(transcript_viewport_height(area(0, 0, 10, 12)), 10);
    assert_eq!(transcript_viewport_height(area(0, 0, 10, 1)), 0);
    assert_eq!(max_scroll_offset(30, 10), 20);
    assert_eq!(max_scroll_offset(5, 10), 0);
    assert_eq!(clamp_scroll_offset(usize::MAX, 30, 10), 20);
    assert_eq!(clamp_scroll_offset(3, 30, 10), 3);
    assert_eq!(first_line_shown(0, 30, 10), 20);
    assert_eq!(first_line_shown(usize::MAX, 30, 10), 0);
    assert_eq!(first_line_shown(8, 30, 10), 12);
}

#[test]
fn home_and_end_jump_to_top_and_bottom() {
    let mut state = TuiState::new("hi".to_string());
    state.on_key(KeyCode::Home, false);
    assert_eq!(first_line_shown(state.scroll_offset, 100, 10), 0);
    state.on_key(KeyCode::End, false);
    assert_eq!(first_line_shown(state.scroll_offset, 100, 10), 90);
    state.on_key(KeyCode::PageUp, false);
    assert_eq!(first_line_shown(state.scroll_offset, 100, 10), 82);
    state.on_key(KeyCode::PageDown, false);
    state.on_key(KeyCode::PageDown, false);
    assert_eq!(first_line_shown(state.scroll_offset, 100, 10), 90);
}

#[test]
fn mouse_scrolls_and_drags() {
    let part = area(0, 5, 20, 12);
    let at = |kind, column, row| MouseEvent { kind, column, row };
    let mut offset = 0;
    assert!(handle_mouse_event(at(MouseKind::ScrollUp, 0, 0), part, 30, &mut offset));
    assert_eq!(offset, 3);
    assert!(handle_mouse_event(at(MouseKind::ScrollDown, 0, 0), part, 30, &mut offset));
    assert!(handle_mouse_event(at(MouseKind::ScrollDown, 0, 0), part, 30, &mut offset));
    assert_eq!(offset, 0);
    offset = 19;
    handle_mouse_event(at(MouseKind::ScrollUp, 0, 0), part, 30, &mut offset);
    assert_eq!(offset, 20);
    assert!(handle_mouse_event(at(MouseKind::Left, 19, 16), part, 30, &mut offset));
    assert_eq!(first_line_shown(offset, 30, 10), 20);
    assert!(handle_mouse_event(at(MouseKind::Left, 19, 5), part, 30, &mut offset));
    assert_eq!(first_line_shown(offset, 30, 10), 0);
    assert!(!handle_mouse_event(at(MouseKind::Left, 18, 5), part, 30, &mut offset));
    assert!(!handle_mouse_event(at(MouseKind::Other, 19, 5), part, 30, &mut offset));
    assert_eq!(mouse_row_to_scroll_offset(10, part, 20), 9);
    assert_eq!(mouse_row_to_scroll_offset(10, part, 0), 0);
    assert_eq!(mouse_row_to_scroll_offset(99, part, 20), 20);
    assert!(is_on_transcript_scrollbar(at(MouseKind::Left, 19, 5), part));
    assert!(!is_on_transcript_scrollbar(at(MouseKind::Left, 19, 17), part));
    assert!(!is_on_transcript_scrollbar(at(MouseKind::Left, 0, 0), area(0, 0, 0, 0)));
}

#[test]
fn history_is_browsed_from_its_end() {
    assert_eq!(previous_history_index(None, 0), None);
    assert_eq!(previous_history_index(None, 3), Some(2));
    assert_eq!(previous_history_index(Some(2), 3), Some(1));
    assert_eq!(previous_history_index(Some(0), 3), Some(0));
    assert_eq!(next_history_index(Some(1), 3), Some(2));
    assert_eq!(next_history_index(Some(2), 3), None);
    assert_eq!(next_history_index(None, 3), None);
}

#[test]
fn keys_edit_and_submit_the_input() {
    let mut state = TuiState::new("hi".to_string());
    assert!(matches!(state.on_key(KeyCode::Up, false), Reaction::Nothing));
    match typed(&mut state, "first  ") {
        Reaction::Prompt(t) => assert_eq!(t, "first"),
        other => panic!("{other:?}"),
    }
    assert_eq!(state.input, "");
    match typed(&mut state, "/help") {
        Reaction::Command(t) => assert_eq!(t, "/help"),
        other => panic!("{other:?}"),
    }
    assert!(matches!(typed(&mut state, "   "), Reaction::Redraw));
    assert_eq!(state.input_history, ["first", "/help"]);
    state.on_key(KeyCode::Up, false);
    assert_eq!(state.input, "/help");
    assert!(matches!(state.on_key(KeyCode::Up, false), Reaction::Redraw));
    assert_eq!(state.input, "first");
    state.on_key(KeyCode::Up, false);
    assert_eq!(state.input, "first");
    state.on_key(KeyCode::Down, false);
    assert_eq!(state.input, "/help");
    state.on_key(KeyCode::Backspace, false);
    assert_eq!(state.input, "/hel");
    assert_eq!(state.history_index, None);
    assert!(matches!(state.on_key(KeyCode::Up, false), Reaction::Nothing));
    assert!(matches!(state.on_key(KeyCode::Down, false), Reaction::Nothing));
    assert_eq!(state.input, "/hel");
    state.input.clear();
    assert!(matches!(state.on_key(KeyCode::Down, false), Reaction::Redraw));
    assert!(matches!(state.on_key(KeyCode::Backspace, false), Reaction::Redraw));
    assert!(matches!(state.on_key(KeyCode::Other, false), Reaction::Nothing));
}

#[test]
fn help_toggles_and_exits_quit() {
    let mut state = TuiState::new("hi".to_string());
    state.on_key(KeyCode::Char('?'), false);
    assert!(state.show_help);
    state.on_key(KeyCode::Char('?'), false);
    assert!(!state.show_help);
    assert_eq!(state.input, "");
    assert!(matches!(state.on_key(KeyCode::Esc, false), Reaction::Quit));
    assert!(matches!(state.on_key(KeyCode::Char('c'), true), Reaction::Quit));
    state.on_key(KeyCode::Char('c'), false);
    assert_eq!(state.input, "c");
    assert_eq!(tui_help_panel().len(), 15);
}

#[test]
fn input_history_is_bounded() {
    let mut state = TuiState::new("hi".to_string());
    for i in 0..205 {
        typed(&mut state, &i.to_string());
    }
    assert_eq!(state.input_history.len(), 200);
    assert_eq!(state.input_history[0], "5");
}

#[test]
fn markdown_lines_are_styled() {
    let lines = render_markdown_lines("## Head\n * item\n> > quote\n```rs\n# code\n```\nplain");
    let texts: Vec<String> = lines.iter().map(text).collect();
    assert_eq!(
        texts,
        ["## Head", "  - item", "| > quote", "```rs", "# code", "```", "plain"]
    );
    assert_eq!(lines[0].look.fg, Some(Color::Cyan));
    assert!(lines[0].look.bold);
    assert_eq!(lines[1].spans[0].look.fg, Some(Color::Yellow));
    assert_eq!(lines[4].look.fg, Some(Color::LightBlue));
    assert_eq!(lines[4].look.bg, Some(Color::Black));
    assert_eq!(lines[6].look.fg, None);
    assert_eq!(render_markdown_lines("").len(), 1);
    assert_eq!(tui_heading("### x y"), Some((3, "x y".to_string())));
    assert_eq!(tui_heading("#x"), None);
}

#[test]
fn transcripts_show_who_speaks() {
    let lines = render_transcript_item(&item(Speaker::User, "a\nb"));
    let texts: Vec<String> = lines.iter().map(text).collect();
    assert_eq!(texts, ["user> ", "a", "b", ""]);
    assert_eq!(lines[0].spans[0].look.fg, Some(Color::Green));
    let list = vec![item(Speaker::User, "a"), item(Speaker::Error, ""), item(Speaker::Assistant, "x")];
    assert_eq!(transcript_content_len(&list), 9);
    assert_eq!(text(&transcript_lines(&list)[3]), "error> ");
}

#[test]
fn transcripts_are_bounded() {
    let mut list: Vec<TranscriptItem> =
        (0..405).map(|i| item(Speaker::System, &i.to_string())).collect();
    trim_transcript(&mut list);
    assert_eq!(list.len(), 400);
    assert_eq!(list[0].content, "5");
}

#[test]
fn answers_grow_in_the_last_entry() {
    let mut state = TuiState::new("hi".to_string());
    state.begin_answer("q".to_string(), Some("pending".to_string()));
    assert_eq!(state.status, "streaming");
    assert_eq!(state.transcript.len(), 4);
    let mut answer = TuiAnswer::new(false);
    answer.push(&Delta::Thinking("t".to_string()));
    answer.push(&Delta::Content("a<think>b".to_string()));
    answer.push(&Delta::Content("c</think>d".to_string()));
    assert_eq!(answer.visible, "ad");
    state.show_answer(answer.visible);
    assert_eq!(state.transcript[3].content, "ad");
    state.end_answer("ad!".to_string());
    assert_eq!(state.transcript[3].content, "ad!");
    assert_eq!(state.transcript[3].speaker, Speaker::Assistant);
    assert_eq!(state.transcript[2].speaker, Speaker::System);
    assert_eq!(state.status, "ready");
    let mut open = TuiAnswer::new(true);
    open.push(&Delta::Thinking("t".to_string()));
    assert_eq!(open.visible, "t");
    state.say(Speaker::Error, "e".to_string());
    state.clear();
    assert!(state.transcript.is_empty());
}

#[test]
fn state_panel_names_the_access() {
    let show = |full| -> Vec<String> {
        state_lines("ready", PermissionMode::Ask, PermissionMode::Deny, full)
            .iter()
            .map(text)
            .collect()
    };
    assert_eq!(show(false), ["status: ready", "perm: shell=Ask write=Deny", "access: workspace"]);
    assert_eq!(show(true)[2], "access: FULL SYSTEM");
}

fn cut(begin: u32, length: u32, percent: u32) -> u32 {
    (100 * begin + percent * length + 50) / 100
}

#[test]
fn screens_of_every_size_are_split_in_order() {
    let mut sizes: Vec<u16> = (0..90).collect();
    sizes.extend([333, 1001, 65535]);
    for begin in [0u16, 1, 7, 250] {
        for &size in &sizes {
            let whole = area(begin, begin, size, size);
            let room = u32::from(begin.saturating_add(size) - begin);
            let l = tui_layout(whole);
            assert_eq!(l.title.x, begin);
            let split = cut(begin.into(), room, 70);
            assert_eq!(u32::from(l.title.x) + u32::from(l.title.width), split);
            assert_eq!(u32::from(l.state.x), split);
            assert_eq!(
                u32::from(l.state.x) + u32::from(l.state.width),
                u32::from(begin) + room
            );
            assert_eq!(l.title.y, begin);
            assert_eq!(l.title.y + l.title.height, l.transcript.y);
            assert_eq!(l.transcript.y + l.transcript.height, l.input.y);
            assert_eq!(
                u32::from(l.input.y) + u32::from(l.input.height),
                u32::from(begin) + room
            );
            if room >= 16 {
                assert_eq!(l.title.height, 5);
                assert_eq!(u32::from(l.transcript.height), room - 8);
                assert_eq!(l.input.height, 3);
            } else {
                assert!(l.title.height <= 5 && l.input.height <= 3);
                assert_eq!(u32::from(l.transcript.height), room.min(8));
            }
        }
    }
}

#[test]
fn middles_are_cut_at_the_nearest_place() {
    for begin in [0u16, 3, 250] {
        for size in [0u16, 1, 2, 3, 7, 10, 33, 50, 99, 100, 250, 65535] {
            for percent in 0..=100u16 {
                let whole = area(begin, begin, size, size);
                let room = u32::from(begin.saturating_add(size) - begin);
                let side = u32::from((100 - percent) / 2);
                let r = centered_rect(percent, percent, whole);
                let from = cut(begin.into(), room, side);
                let to = cut(begin.into(), room, side + u32::from(percent));
                assert_eq!((u32::from(r.x), u32::from(r.y)), (from, from));
                assert_eq!(u32::from(r.x) + u32::from(r.width), to, "{percent} of {size}");
                assert_eq!(u32::from(r.y) + u32::from(r.height), to);
            }
        }
    }
    assert_eq!(centered_rect(80, 75, area(0, 0, 100, 40)), area(10, 5, 80, 30));
}

#[test]
fn every_input_is_reached() {
    let mut state = TuiState::new("hi".to_string());
    for word in ["a", "b", "c"] {
        typed(&mut state, word);
    }
    for word in ["c", "b", "a", "a"] {
        state.on_key(KeyCode::Up, false);
        assert_eq!(state.input, word);
    }
    for word in ["b", "c", ""] {
        state.on_key(KeyCode::Down, false);
        assert_eq!(state.input, word);
    }
    assert_eq!(state.history_index, None);
}

#[test]
fn progress_is_shown() {
    let mut state = TuiState::new("hi".to_string());
    let thought = Delta::Thinking("t".to_string());
    let content = Delta::Content("t".to_string());
    state.show_progress(&Progress::of_piece(&thought, false));
    assert_eq!(state.status, "thinking");
    state.show_progress(&Progress::of_piece(&content, true));
    assert_eq!(state.status, "thinking");
    state.show_progress(&Progress::of_piece(&content, false));
    assert_eq!(state.status, "streaming");
    let read = ToolCall::ReadFile { path: "a".to_string() };
    state.show_progress(&Progress::of_call(&read));
    assert_eq!(state.status, "running tool: read_file path=a");
    let spawn = ToolCall::SpawnWorker { name: None, task: "t".to_string() };
    assert_eq!(Progress::of_call(&spawn).text(), "running worker: worker");
    let spawn = ToolCall::SpawnWorker { name: Some("fix".to_string()), task: "t".to_string() };
    assert_eq!(Progress::of_call(&spawn).text(), "running worker: fix");
    state.show_progress(&Progress::Ready);
    assert_eq!(state.status, "ready");
}
