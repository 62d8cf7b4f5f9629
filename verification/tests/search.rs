use autofix::search::{
    answer_search, clamp_results, extract_attr, find_snippet, html_to_text,
    normalize_duckduckgo_url, parse_duckduckgo_results, redirect_target, search_address,
};

#[test]
fn parses_duckduckgo_results_from_html() {
    let html = r#"
<a class="result__a" href="//duckduckgo.com/l/?uddg=https%3A%2F%2Fexample.com%2Fone">First &amp; Result</a>
<span class="result__snippet">Snippet <b>one</b>.</span>
<a class="result__a" href="https://example.com/two">Second Result</a>
<div class="result__snippet">Snippet two.</div>
"#;

    let results = parse_duckduckgo_results(html, 5);
    assert_eq!(results.len(), 2);
    assert_eq!(results[0].title, "First & Result");
    assert_eq!(results[0].url, "https://example.com/one");
    assert_eq!(results[0].snippet, "Snippet one.");
    assert_eq!(results[1].title, "Second Result");
    assert_eq!(results[1].url, "https://example.com/two");
    assert_eq!(results[1].snippet, "Snippet two.");
}

#[test]
fn html_becomes_text() {
    assert_eq!(html_to_text("a <b>bold</b>\n  &lt;x&gt; &quot;q&quot; &#39;&#x27;"), "a bold <x> \"q\" ''");
    assert_eq!(html_to_text("&unknown; &"), "&unknown; &");
    assert_eq!(html_to_text("  <br>  "), "");
    assert_eq!(html_to_text("&abcdefghijklmnop;"), "&abcdefghijklmnop;");
}

#[test]
fn attributes_are_found() {
    assert_eq!(extract_attr(r#"<a href="x" id="y">"#, "id").as_deref(), Some("y"));
    assert_eq!(extract_attr(r#"<a href="x>"#, "href"), None);
    assert_eq!(extract_attr("<a>", "href"), None);
}

#[test]
fn snippets_end_with_their_tag() {
    assert_eq!(
        find_snippet(r#"<a class="result__snippet">one <b>two</b></a> three"#).as_deref(),
        Some("one two")
    );
    assert_eq!(find_snippet(r#"<p class="result__snippet"> </p>"#), None);
    assert_eq!(find_snippet("nothing"), None);
    assert_eq!(find_snippet(r#"<p class="result__snippet">open"#).as_deref(), Some("open"));
}

#[test]
fn redirects_lead_to_their_target() {
    assert_eq!(
        normalize_duckduckgo_url("//duckduckgo.com/l/?x=1&uddg=https%3A%2F%2Fa.b%2Fc%20d&rut=2"),
        "https://a.b/c d"
    );
    assert_eq!(normalize_duckduckgo_url("//a.b/c"), "https://a.b/c");
    assert_eq!(normalize_duckduckgo_url("/relative"), "/relative");
    let pairs = Some(vec![
        ("a".to_string(), "1".to_string()),
        ("uddg".to_string(), "first".to_string()),
        ("uddg".to_string(), "second".to_string()),
    ]);
    assert_eq!(redirect_target("href", &pairs), "first");
    assert_eq!(redirect_target("href", &None), "href");
}

#[test]
fn searches_ask_one_address() {
    assert_eq!(
        search_address("a b&c").as_deref(),
        Some("https://html.duckduckgo.com/html/?q=a+b%26c&kl=us-en&kp=-1&ia=web")
    );
}

#[test]
fn result_numbers_are_clamped() {
    assert_eq!(clamp_results(0), 1);
    assert_eq!(clamp_results(5), 5);
    assert_eq!(clamp_results(99), 8);
}

#[test]
fn answers_are_numbered_and_bounded() {
    let one = r#"<a class="result__a" href="https://e.com">T</a><p class="result__snippet">S</p>"#;
    let page = one.repeat(12);
    let answer = answer_search("q", 2, &page);
    assert_eq!(
        answer,
        "DuckDuckGo results for `q`:\n\n1. T\n   https://e.com\n   S\n\n2. T\n   https://e.com\n   S"
    );
    assert_eq!(answer_search("q", 50, &page).matches("https://e.com").count(), 8);
    assert_eq!(answer_search("q", 5, "<p>none</p>"), "no DuckDuckGo results found for `q`");
}

#[test]
fn stray_markers_are_passed_over() {
    let page = r#"<a href="x">y</a> result__a <a class="result__a" href="https://e.com">T</a>"#;
    let results = parse_duckduckgo_results(page, 5);
    assert_eq!(results.len(), 1);
    assert_eq!(results[0].title, "T");
    assert_eq!(results[0].snippet, "");
    assert!(parse_duckduckgo_results("result__a result__a", 5).is_empty());
}
