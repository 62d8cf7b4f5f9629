use autofix::paths;
use autofix::sorting::{le_text, newest_first, sort_texts};
use autofix::text;
use autofix::text::CharClass;
use std::path::Path;

const SAMPLES: [&str; 22] = [
    "", ".", "..", "/", "//", "a", "/a", "a/", "a/b", "/a/b/", "a//b", "a/./b", "./a", "./", "a/..",
    "../a", "/..", "a/b.txt", ".hidden", "/a/./b/..", "a/b/.", "é/ü.rs",
];

fn owned(list: &[&str]) -> Vec<String> {
    list.iter().map(|s| s.to_string()).collect()
}

#[test]
fn white_space_agrees_with_std() {
    for n in 0..0x3100u32 {
        if let Some(c) = char::from_u32(n) {
            assert_eq!(text::is_whitespace(c), c.is_whitespace(), "{n:x}");
        }
    }
}

#[test]
fn trimming_agrees_with_std() {
    for s in ["", "  ", " a b ", "\t\u{a0}x\u{3000}\n", "---a--", "ab"] {
        assert_eq!(text::trim_white(s), s.trim());
        assert_eq!(text::trim_end_of(s, CharClass::White), s.trim_end());
        assert_eq!(text::trim_start_of(s, CharClass::White), s.trim_start());
        assert_eq!(text::trim_of(s, CharClass::Is('-')), s.trim_matches('-'));
    }
}

#[test]
fn splitting_agrees_with_std() {
    for s in ["", "a", " a  b\tc ", "a\nb\r\nc\n", "\n\n", "a\r\nb\r", "x,y,,z,"] {
        let lines: Vec<&str> = s.lines().collect();
        assert_eq!(text::split_lines(s), lines);
        let words: Vec<&str> = s.split_whitespace().collect();
        assert_eq!(text::split_words(s), words);
        let pieces: Vec<&str> = s.split(',').collect();
        assert_eq!(text::split_char(s, ','), pieces);
    }
}

#[test]
fn searching_agrees_with_std() {
    for (s, pat) in [("abcabc", "ca"), ("abc", "d"), ("aaa", "aa"), ("x", ""), ("", "x")] {
        assert_eq!(text::find_in(s, pat), s.find(pat));
        assert_eq!(text::has_text(s, pat), s.contains(pat));
        assert_eq!(text::starts(s, pat), s.starts_with(pat));
        assert_eq!(text::finishes(s, pat), s.ends_with(pat));
        assert_eq!(text::strip_prefix_of(s, pat).as_deref(), s.strip_prefix(pat));
    }
}

#[test]
fn numbers_are_written_in_decimal() {
    assert_eq!(text::number(0), "0");
    assert_eq!(text::number(u64::MAX), u64::MAX.to_string());
    assert_eq!(text::size_number(120), "120");
    assert_eq!(text::signed_number(-17), "-17");
    assert_eq!(text::signed_number(i32::MIN), i32::MIN.to_string());
}

#[test]
fn joining_and_bytes_agree_with_std() {
    assert_eq!(text::join(&owned(&["a", "", "b"]), ", "), "a, , b");
    assert_eq!(text::join(&owned(&[]), ", "), "");
    assert_eq!(text::byte_count("aé€😀"), "aé€😀".len());
    assert_eq!(text::first_chars("aé€😀", 3), "aé€");
    assert_eq!(text::char_count("aé€😀"), 4);
}

#[test]
fn path_parts_agree_with_std() {
    for s in SAMPLES {
        let path = Path::new(s);
        assert_eq!(paths::is_absolute(s), path.is_absolute(), "{s}");
        assert_eq!(
            paths::parent_of(s),
            path.parent().map(|p| p.display().to_string()),
            "parent of {s}"
        );
        assert_eq!(
            paths::file_name_of(s),
            path.file_name().map(|n| n.to_str().unwrap().to_string()),
            "name of {s}"
        );
        if let Some(name) = paths::file_name_of(s) {
            assert_eq!(
                Some(paths::stem_of(&name)),
                path.file_stem().map(|n| n.to_str().unwrap().to_string())
            );
            assert_eq!(
                paths::extension_of(&name),
                path.extension().map(|n| n.to_str().unwrap().to_string())
            );
        }
    }
}

#[test]
fn joined_paths_agree_with_std() {
    for a in SAMPLES {
        for b in SAMPLES {
            assert_eq!(
                paths::join_path(a, b),
                Path::new(a).join(b).display().to_string(),
                "{a} with {b}"
            );
            assert_eq!(
                paths::path_starts_with(a, b),
                Path::new(a).starts_with(b),
                "{a} from {b}"
            );
            assert_eq!(
                paths::relative_to(a, b),
                Path::new(a).strip_prefix(b).ok().map(|p| p.display().to_string()),
                "{a} below {b}"
            );
            assert_eq!(paths::same_path(a, b), Path::new(a) == Path::new(b), "{a} and {b}");
        }
    }
}

#[test]
fn texts_sort_as_in_std() {
    let list = owned(&["b", "a", "ab", "", "é", "z", "a", "B"]);
    let mut expected = list.clone();
    expected.sort();
    assert_eq!(sort_texts(list), expected);
    assert!(le_text("a", "ab"));
    assert!(!le_text("ab", "a"));
    assert!(le_text("", ""));
}

#[test]
fn records_of_one_time_keep_their_order() {
    let record = |id: &str, updated_at: u64| autofix::workers::WorkerRecord {
        id: id.to_string(),
        name: String::new(),
        task: String::new(),
        workspace: String::new(),
        branch: String::new(),
        config_file: String::new(),
        task_file: String::new(),
        log_file: String::new(),
        pid: None,
        status: autofix::workers::WorkerStatus::Running,
        created_at: 0,
        updated_at,
        exit_status: None,
    };
    let sorted = newest_first(vec![
        record("a", 1),
        record("b", 3),
        record("c", 1),
        record("d", 2),
        record("e", 3),
    ]);
    let ids: Vec<&str> = sorted.iter().map(|r| r.id.as_str()).collect();
    assert_eq!(ids, ["b", "e", "d", "a", "c"]);
}
