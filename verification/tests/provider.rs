use autofix::config::{ProviderKind, ThinkMode};
use autofix::json::{parse_json, Json};
use autofix::provider::{
    answer_of, read_event, read_line, Delta, LineStream, Message, ProviderClient, Role,
    StreamEvent, StreamStatus,
};

fn to_value(json: &Json) -> serde_json::Value {
    match json {
        Json::Null => serde_json::Value::Null,
        Json::Bool(b) => serde_json::Value::Bool(*b),
        Json::Number(n) => serde_json::from_str(n).unwrap(),
        Json::Text(t) => serde_json::Value::String(t.clone()),
        Json::Array(a) => serde_json::Value::Array(a.iter().map(to_value).collect()),
        Json::Object(o) => {
            serde_json::Value::Object(o.iter().map(|(k, v)| (k.clone(), to_value(v))).collect())
        }
    }
}

fn same_json(json: &Json, expected: &str) {
    let expected: serde_json::Value = serde_json::from_str(expected).unwrap();
    assert_eq!(to_value(json), expected);
}

fn client(kind: ProviderKind) -> ProviderClient {
    ProviderClient {
        kind,
        api_key: Some("key".to_string()),
        base_url: "http://host/".to_string(),
        model: "m".to_string(),
        think: ThinkMode::Auto,
        stop_sequences: vec![],
    }
}

fn talk() -> Vec<Message> {
    [(Role::System, "be brief"), (Role::User, "hi"), (Role::Assistant, "hello"), (Role::System, "now")]
        .into_iter()
        .map(|(role, content)| Message { role, content: content.to_string() })
        .collect()
}

#[test]
fn openai_requests_carry_every_turn() {
    let mut p = client(ProviderKind::Openai);
    let r = p.request(&talk()[..2], false);
    assert_eq!(r.url, "http://host/");
    assert_eq!(r.bearer.as_deref(), Some("key"));
    assert!(r.headers.is_empty());
    same_json(
        &r.body,
        r#"{"model":"m","messages":[{"role":"system","content":"be brief"},{"role":"user","content":"hi"}],"temperature":0.2}"#,
    );
    p.set_stop_sequences(vec!["END".to_string()]);
    let r = p.request(&talk()[1..2], true);
    same_json(
        &r.body,
        r#"{"model":"m","stream":true,"messages":[{"role":"user","content":"hi"}],"temperature":0.2,"stop":["END"]}"#,
    );
}

#[test]
fn openrouter_requests_name_the_program() {
    let r = client(ProviderKind::Openrouter).request(&talk(), true);
    assert_eq!(
        r.headers,
        [
            ("HTTP-Referer".to_string(), "https://localhost".to_string()),
            ("X-Title".to_string(), "coding-agent-rs".to_string())
        ]
    );
}

#[test]
fn anthropic_requests_set_the_system_apart() {
    let mut p = client(ProviderKind::Anthropic);
    p.set_stop_sequences(vec!["X".to_string()]);
    let r = p.request(&talk(), true);
    assert_eq!(r.bearer, None);
    assert_eq!(
        r.headers,
        [
            ("x-api-key".to_string(), "key".to_string()),
            ("anthropic-version".to_string(), "2023-06-01".to_string())
        ]
    );
    same_json(
        &r.body,
        r#"{"model":"m","max_tokens":4096,"stream":true,"system":"be brief\n\nnow","messages":[{"role":"user","content":"hi"},{"role":"assistant","content":"hello"}],"stop_sequences":["X"]}"#,
    );
}

#[test]
fn gemini_requests_are_one_prompt() {
    let mut p = client(ProviderKind::Gemini);
    let r = p.request(&talk()[..2], false);
    assert_eq!(r.url, "http://host/models/m:generateContent?key=key");
    same_json(
        &r.body,
        r#"{"contents":[{"role":"user","parts":[{"text":"system: be brief\n\nuser: hi"}]}],"generationConfig":{"temperature":0.2}}"#,
    );
    p.set_stop_sequences(vec!["X".to_string()]);
    p.api_key = None;
    let r = p.request(&talk()[..1], true);
    assert_eq!(r.url, "http://host/models/m:streamGenerateContent?alt=sse&key=");
    same_json(
        &r.body,
        r#"{"contents":[{"role":"user","parts":[{"text":"system: be brief"}]}],"generationConfig":{"temperature":0.2,"stopSequences":["X"]}}"#,
    );
}

#[test]
fn ollama_requests_carry_thinking_and_stops() {
    let mut p = client(ProviderKind::Ollama);
    let r = p.request(&talk()[1..2], true);
    same_json(&r.body, r#"{"model":"m","stream":true,"messages":[{"role":"user","content":"hi"}]}"#);
    for (mode, value) in [
        (ThinkMode::On, "true"),
        (ThinkMode::Off, "false"),
        (ThinkMode::Low, "\"low\""),
        (ThinkMode::Medium, "\"medium\""),
        (ThinkMode::High, "\"high\""),
    ] {
        p.set_think(mode);
        assert_eq!(p.think(), mode);
        let r = p.request(&[], false);
        same_json(
            &r.body,
            &format!(r#"{{"model":"m","stream":false,"messages":[],"think":{value}}}"#),
        );
    }
    p.set_think(ThinkMode::Auto);
    p.set_stop_sequences(vec!["a".to_string(), "b".to_string()]);
    p.set_model("n".to_string());
    assert_eq!(p.model(), "n");
    assert_eq!(p.stop_sequences(), ["a", "b"]);
    let r = p.request(&[], false);
    same_json(
        &r.body,
        r#"{"model":"n","stream":false,"messages":[],"options":{"stop":["a","b"]}}"#,
    );
}

#[test]
fn whole_replies_give_their_answer() {
    let cases = [
        (ProviderKind::Openai, r#"{"choices":[{"message":{"content":"hi"}}]}"#),
        (ProviderKind::Anthropic, r#"{"content":[{"text":"h"},{"type":"x"},{"text":"i"}]}"#),
        (ProviderKind::Gemini, r#"{"candidates":[{"content":{"parts":[{"text":"hi"}]}}]}"#),
        (ProviderKind::Ollama, r#"{"message":{"content":"hi"}}"#),
    ];
    for (kind, text) in cases {
        let value = parse_json(text).unwrap();
        assert_eq!(answer_of(kind, &value, text), Ok("hi".to_string()));
    }
}

#[test]
fn unexpected_replies_are_shown() {
    for (kind, name) in [
        (ProviderKind::CustomOpenai, "OpenAI-compatible"),
        (ProviderKind::Anthropic, "Anthropic"),
        (ProviderKind::Gemini, "Gemini"),
        (ProviderKind::Ollama, "Ollama"),
    ] {
        let err = answer_of(kind, &parse_json(r#"{"content":[]}"#).unwrap(), "SHOWN").unwrap_err();
        assert_eq!(err, format!("unexpected {name} response: SHOWN"));
    }
}

fn texts(deltas: &[Delta]) -> Vec<String> {
    deltas
        .iter()
        .map(|delta| match delta.as_event() {
            StreamEvent::Content(t) => format!("c:{t}"),
            StreamEvent::Thinking(t) => format!("t:{t}"),
        })
        .collect()
}

#[test]
fn events_are_read_for_each_provider() {
    let value = parse_json(r#"{"choices":[{"delta":{"content":"x"}}]}"#).unwrap();
    let step = read_event(ProviderKind::Openai, &value);
    assert_eq!(texts(&step.deltas), ["c:x"]);
    assert!(!step.done);
    let value = parse_json(r#"{"type":"message_stop"}"#).unwrap();
    assert!(read_event(ProviderKind::Anthropic, &value).done);
    let value = parse_json(r#"{"delta":{"text":"y"}}"#).unwrap();
    assert_eq!(texts(&read_event(ProviderKind::Anthropic, &value).deltas), ["c:y"]);
    let value =
        parse_json(r#"{"candidates":[{"content":{"parts":[{"text":"a"},{},{"text":"b"}]}}]}"#).unwrap();
    assert_eq!(texts(&read_event(ProviderKind::Gemini, &value).deltas), ["c:a", "c:b"]);
    let value =
        parse_json(r#"{"message":{"content":"a","thinking":"b"},"done":true}"#).unwrap();
    let step = read_event(ProviderKind::Ollama, &value);
    assert_eq!(texts(&step.deltas), ["c:a", "t:b"]);
    assert!(step.done);
}

#[test]
fn lines_that_carry_nothing_are_skipped() {
    for (kind, line) in [
        (ProviderKind::Openai, ": comment"),
        (ProviderKind::Openai, "data:   "),
        (ProviderKind::Anthropic, "data: [DONE]"),
        (ProviderKind::Anthropic, "event: ping"),
        (ProviderKind::Gemini, "data:"),
        (ProviderKind::Ollama, "   "),
    ] {
        let step = read_line(kind, line).unwrap();
        assert!(step.deltas.is_empty() && !step.done, "{line}");
    }
    assert!(read_line(ProviderKind::Openrouter, "data: [DONE]").unwrap().done);
    let err = read_line(ProviderKind::Gemini, "data: [DONE]").unwrap_err();
    assert_eq!(err.message(), "invalid Gemini stream event: [DONE]");
    assert!(!err.cause.is_empty());
    let err = read_line(ProviderKind::Ollama, " {oops").unwrap_err();
    assert_eq!(err.message(), "invalid Ollama stream event:  {oops");
}

fn read_in(kind: ProviderKind, chunks: &[&[u8]]) -> LineStream {
    let mut stream = LineStream::new(kind);
    for chunk in chunks {
        stream.push_chunk(chunk);
    }
    stream.finish();
    stream
}

#[test]
fn replies_read_the_same_however_they_are_cut() {
    let text: &[u8] =
        b"data: {\"choices\":[{\"delta\":{\"content\":\"a\"}}]}\r\n\ndata: {\"choices\":[{\"delta\":{\"content\":\"b\"}}]}\ndata: [DONE]\nrest";
    let mut whole = read_in(ProviderKind::Openai, &[text]);
    assert_eq!(whole.answer, "ab");
    assert_eq!(texts(&whole.take_deltas()), ["c:a", "c:b"]);
    assert!(whole.take_deltas().is_empty());
    for cut in 0..text.len() {
        let mut parts = read_in(ProviderKind::Openai, &[&text[..cut], &text[cut..]]);
        assert_eq!(parts.answer, "ab");
        assert_eq!(texts(&parts.take_deltas()), ["c:a", "c:b"]);
        assert!(matches!(parts.status, StreamStatus::Done));
    }
}

#[test]
fn last_line_needs_no_end() {
    let mut stream = LineStream::new(ProviderKind::Ollama);
    assert!(stream.is_open());
    stream.push_text("{\"message\":{\"content\":\"x\",\"thinking\":\"y\"}}");
    assert_eq!(stream.answer, "");
    stream.finish();
    assert_eq!(stream.answer, "x");
    assert!(!stream.is_open());
    stream.push_text("{\"message\":{\"content\":\"z\"}}\n");
    assert_eq!(stream.answer, "x");
}

#[test]
fn broken_events_end_the_stream() {
    let mut stream =
        read_in(ProviderKind::Ollama, &[b"{\"message\":{\"content\":\"a\"}}\n{broken\n{\"message\":{\"content\":\"b\"}}\n"]);
    assert_eq!(stream.answer, "a");
    assert_eq!(texts(&stream.take_deltas()), ["c:a"]);
    match stream.status {
        StreamStatus::Failed(e) => assert_eq!(e.event, "{broken"),
        _ => panic!("the stream did not fail"),
    }
}

#[test]
fn bytes_that_are_no_text_are_replaced() {
    let mut line = b"data: {\"choices\":[{\"delta\":{\"content\":\"".to_vec();
    line.push(0xff);
    line.extend_from_slice(b"\"}}]}\n");
    let stream = read_in(ProviderKind::Openai, &[&line]);
    assert_eq!(stream.answer, "\u{fffd}");
}

#[test]
fn json_is_read_with_its_kinds() {
    let value = parse_json(r#"{"a":[1,-2.5,true,null,"t"]}"#).unwrap();
    same_json(&value, r#"{"a":[1,-2.5,true,null,"t"]}"#);
    assert!(parse_json("{").is_err());
    assert!(parse_json("").unwrap_err().contains("EOF"));
}
