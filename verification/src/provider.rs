//! Providers: the requests they take, the replies they give and the streams they reply in.
use crate::config::{opt_text, Config, ProviderKind, ThinkMode};
use crate::json::{
    as_text, at_index, at_key, is_true, item_of, json_read, key_of, lemma_added_member, list,
    list_of, object, parse_json, part_texts, seen, text, text_list, text_of, texts_of_parts, with,
    with_item, Json, JsonModel,
};
use crate::text::{
    after, before, copies, copy_opt, find, find_in, join, joined, lemma_find, same, strip_prefix_of,
    texts, trim_end, trim_end_of, trim_white, trimmed, without_prefix, CharClass,
};
use vstd::prelude::*;
use vstd::string::*;
use vstd::utf8::encode_utf8;

verus! {

broadcast use {vstd::seq::group_seq_axioms, vstd::string::group_string_axioms};

/// Who speaks.
#[derive(Debug, Clone, Copy, PartialEq, Eq, Structural)]
pub enum Role {
    System,
    User,
    Assistant,
}

/// One turn of a conversation.
#[derive(Debug, Clone)]
pub struct Message {
    pub role: Role,
    pub content: String,
}

/// One turn of a conversation as a mathematical object.
pub ghost struct Turn {
    pub role: Role,
    pub content: Seq<char>,
}

impl View for Message {
    type V = Turn;

    open spec fn view(&self) -> Turn {
        Turn { role: self.role, content: self.content@ }
    }
}

/// The turns of a conversation.
pub open spec fn turns(messages: Seq<Message>) -> Seq<Turn> {
    Seq::new(messages.len(), |i: int| messages[i]@)
}

/// A piece of a reply as it arrives.
pub enum StreamEvent<'a> {
    Content(&'a str),
    Thinking(&'a str),
}

/// A piece of a reply, owned.
#[derive(Debug)]
pub enum Delta {
    Content(String),
    Thinking(String),
}

/// A piece of a reply as a mathematical object.
pub ghost enum Piece {
    Content(Seq<char>),
    Thinking(Seq<char>),
}

impl View for Delta {
    type V = Piece;

    open spec fn view(&self) -> Piece {
        match self {
            Delta::Content(t) => Piece::Content(t@),
            Delta::Thinking(t) => Piece::Thinking(t@),
        }
    }
}

impl Delta {
    /// The piece as an event.
    pub fn as_event(&self) -> (r: StreamEvent<'_>)
        ensures
            match r {
                StreamEvent::Content(t) => self@ == Piece::Content(t@),
                StreamEvent::Thinking(t) => self@ == Piece::Thinking(t@),
            },
    {
        match self {
            Delta::Content(t) => StreamEvent::Content(t.as_str()),
            Delta::Thinking(t) => StreamEvent::Thinking(t.as_str()),
        }
    }
}

/// The name of a role in a request.
pub open spec fn role_word(role: Role) -> Seq<char> {
    match role {
        Role::System => "system"@,
        Role::User => "user"@,
        Role::Assistant => "assistant"@,
    }
}

/// The name of a role in a request.
pub fn role_name(role: &Role) -> (r: &'static str)
    ensures
        r@ == role_word(*role),
{
    match role {
        Role::System => "system",
        Role::User => "user",
        Role::Assistant => "assistant",
    }
}

/// What `think` says in a request.
pub open spec fn think_value(mode: ThinkMode) -> Option<JsonModel> {
    match mode {
        ThinkMode::Auto => None,
        ThinkMode::On => Some(JsonModel::Bool(true)),
        ThinkMode::Off => Some(JsonModel::Bool(false)),
        ThinkMode::Low => Some(JsonModel::Text("low"@)),
        ThinkMode::Medium => Some(JsonModel::Text("medium"@)),
        ThinkMode::High => Some(JsonModel::Text("high"@)),
    }
}

impl ThinkMode {
    /// What `think` says in a request; nothing where the model decides.
    pub fn as_request_value(self) -> (r: Option<Json>)
        ensures
            match r {
                Some(v) => think_value(self) == Some(v@),
                None => think_value(self) is None,
            },
    {
        match self {
            ThinkMode::Auto => None,
            ThinkMode::On => Some(Json::Bool(true)),
            ThinkMode::Off => Some(Json::Bool(false)),
            ThinkMode::Low => Some(text("low")),
            ThinkMode::Medium => Some(text("medium")),
            ThinkMode::High => Some(text("high")),
        }
    }
}

// ---------------------------------------------------------------------------
// The client
// ---------------------------------------------------------------------------

/// What is known of a provider.
pub struct ProviderClient {
    pub kind: ProviderKind,
    pub api_key: Option<String>,
    pub base_url: String,
    pub model: String,
    pub think: ThinkMode,
    pub stop_sequences: Vec<String>,
}

/// What is known of a provider as a mathematical object.
pub ghost struct Provider {
    pub kind: ProviderKind,
    pub key: Option<Seq<char>>,
    pub url: Seq<char>,
    pub model: Seq<char>,
    pub think: ThinkMode,
    pub stops: Seq<Seq<char>>,
}

impl View for ProviderClient {
    type V = Provider;

    open spec fn view(&self) -> Provider {
        Provider {
            kind: self.kind,
            key: opt_text(self.api_key),
            url: self.base_url@,
            model: self.model@,
            think: self.think,
            stops: texts(self.stop_sequences@),
        }
    }
}

/// The provider that settings name.
pub open spec fn provider_of(c: Config) -> Provider {
    Provider {
        kind: c.provider,
        key: opt_text(c.api_key),
        url: c.base_url->0@,
        model: c.model->0@,
        think: c.think,
        stops: texts(c.stop_sequences@),
    }
}

/// A request to a provider: where it goes, with which headers, and what it says.
#[derive(Debug)]
pub struct Request {
    pub url: String,
    pub bearer: Option<String>,
    pub headers: Vec<(String, String)>,
    pub body: Json,
}

/// A request as a mathematical object.
pub ghost struct Call {
    pub url: Seq<char>,
    pub bearer: Option<Seq<char>>,
    pub headers: Seq<(Seq<char>, Seq<char>)>,
    pub body: JsonModel,
}

impl View for Request {
    type V = Call;

    open spec fn view(&self) -> Call {
        Call {
            url: self.url@,
            bearer: opt_text(self.bearer),
            headers: Seq::new(
                self.headers@.len(),
                |i: int| (self.headers@[i].0@, self.headers@[i].1@),
            ),
            body: self.body@,
        }
    }
}

/// One turn in a request.
pub open spec fn turn_value(role: Seq<char>, content: Seq<char>) -> JsonModel {
    JsonModel::Object(
        seq![("role"@, JsonModel::Text(role)), ("content"@, JsonModel::Text(content))],
    )
}

fn turn_json(role: &str, content: &str) -> (r: Json)
    ensures
        r@ == turn_value(role@, content@),
{
    let r = with(with(object(), "role", text(role)), "content", text(content));
    assert(r@->Object_0 =~= turn_value(role@, content@)->Object_0);
    r
}

/// All turns, each under its own role.
pub open spec fn all_turns(list: Seq<Turn>) -> JsonModel {
    JsonModel::Array(
        Seq::new(list.len(), |i: int| turn_value(role_word(list[i].role), list[i].content)),
    )
}

fn all_turns_json(messages: &[Message]) -> (r: Json)
    ensures
        r@ == all_turns(turns(messages@)),
{
    let mut out = list();
    let mut i: usize = 0;
    let ghost all = turns(messages@);
    assert(all_turns(all.take(0))->Array_0 =~= seq![]);
    while i < messages.len()
        invariant
            i <= messages@.len(),
            all == turns(messages@),
            out is Array,
            out@ == all_turns(all.take(i as int)),
        decreases messages@.len() - i,
    {
        out = with_item(out, turn_json(role_name(&messages[i].role), &messages[i].content));
        assert(all[i as int] == messages@[i as int]@);
        assert(out@->Array_0 =~= all_turns(all.take(i + 1))->Array_0);
        i += 1;
    }
    assert(all.take(all.len() as int) =~= all);
    out
}

/// The members of an object with one more, if there is a value for it.
pub open spec fn extended(
    members: Seq<(Seq<char>, JsonModel)>,
    key: Seq<char>,
    value: Option<JsonModel>,
) -> Seq<(Seq<char>, JsonModel)> {
    match value {
        Some(v) => members.push((key, v)),
        None => members,
    }
}

/// The stop sequences as a value, if there are any.
pub open spec fn stop_value(stops: Seq<Seq<char>>) -> Option<JsonModel> {
    if stops.len() == 0 {
        None
    } else {
        Some(text_list(stops))
    }
}

/// `true`, where it is wanted.
pub open spec fn flag(wanted: bool) -> Option<JsonModel> {
    if wanted {
        Some(JsonModel::Bool(true))
    } else {
        None
    }
}

/// A key, or the empty text where there is none.
pub open spec fn key_or_empty(key: Option<Seq<char>>) -> Seq<char> {
    match key {
        Some(k) => k,
        None => ""@,
    }
}

fn extend(value: Json, key: &str, extra: Option<Json>) -> (r: Json)
    requires
        value is Object,
    ensures
        r is Object,
        r@ == JsonModel::Object(
            extended(
                value@->Object_0,
                key@,
                match extra {
                    Some(v) => Some(v@),
                    None => None,
                },
            ),
        ),
{
    match extra {
        Some(v) => with(value, key, v),
        None => value,
    }
}

// ---------------------------------------------------------------------------
// Requests
// ---------------------------------------------------------------------------

/// What a request to an OpenAI-compatible provider says.
pub open spec fn openai_body(p: Provider, list: Seq<Turn>, stream: bool) -> JsonModel {
    let head = extended(seq![("model"@, JsonModel::Text(p.model))], "stream"@, flag(stream));
    let whole = head.push(("messages"@, all_turns(list))).push(
        ("temperature"@, JsonModel::Number("0.2"@)),
    );
    JsonModel::Object(extended(whole, "stop"@, stop_value(p.stops)))
}

/// A request to an OpenAI-compatible provider.
pub open spec fn openai_call(p: Provider, list: Seq<Turn>, stream: bool) -> Call {
    Call {
        url: p.url,
        bearer: p.key,
        headers: if p.kind == ProviderKind::Openrouter {
            seq![("HTTP-Referer"@, "https://localhost"@), ("X-Title"@, "coding-agent-rs"@)]
        } else {
            seq![]
        },
        body: openai_body(p, list, stream),
    }
}

/// The contents of the system turns.
pub open spec fn system_texts(list: Seq<Turn>) -> Seq<Seq<char>>
    decreases list.len(),
{
    if list.len() == 0 {
        seq![]
    } else if list.last().role == Role::System {
        system_texts(list.drop_last()).push(list.last().content)
    } else {
        system_texts(list.drop_last())
    }
}

/// The turns that are not the system's.
pub open spec fn chat_turns(list: Seq<Turn>) -> Seq<Turn>
    decreases list.len(),
{
    if list.len() == 0 {
        seq![]
    } else if list.last().role == Role::System {
        chat_turns(list.drop_last())
    } else {
        chat_turns(list.drop_last()).push(list.last())
    }
}

/// What a request to Anthropic says: the system turns apart from the others.
pub open spec fn anthropic_body(p: Provider, list: Seq<Turn>, stream: bool) -> JsonModel {
    let head = seq![("model"@, JsonModel::Text(p.model)), ("max_tokens"@, JsonModel::Number("4096"@))];
    let whole = extended(head, "stream"@, flag(stream)).push(
        ("system"@, JsonModel::Text(joined(system_texts(list), "\n\n"@))),
    ).push(("messages"@, all_turns(chat_turns(list))));
    JsonModel::Object(extended(whole, "stop_sequences"@, stop_value(p.stops)))
}

/// A request to Anthropic.
pub open spec fn anthropic_call(p: Provider, list: Seq<Turn>, stream: bool) -> Call {
    Call {
        url: p.url,
        bearer: None,
        headers: seq![
            ("x-api-key"@, key_or_empty(p.key)),
            ("anthropic-version"@, "2023-06-01"@),
        ],
        body: anthropic_body(p, list, stream),
    }
}

/// The conversation as one prompt: each turn behind the name of its role.
pub open spec fn spoken(list: Seq<Turn>) -> Seq<Seq<char>> {
    Seq::new(list.len(), |i: int| role_word(list[i].role) + ": "@ + list[i].content)
}

/// What a request to Gemini says.
pub open spec fn gemini_body(p: Provider, list: Seq<Turn>) -> JsonModel {
    let prompt = joined(spoken(list), "\n\n"@);
    let part = JsonModel::Object(seq![("text"@, JsonModel::Text(prompt))]);
    let content = JsonModel::Object(
        seq![("role"@, JsonModel::Text("user"@)), ("parts"@, JsonModel::Array(seq![part]))],
    );
    let settings = extended(
        seq![("temperature"@, JsonModel::Number("0.2"@))],
        "stopSequences"@,
        stop_value(p.stops),
    );
    JsonModel::Object(
        seq![
            ("contents"@, JsonModel::Array(seq![content])),
            ("generationConfig"@, JsonModel::Object(settings)),
        ],
    )
}

/// A request to Gemini.
pub open spec fn gemini_call(p: Provider, list: Seq<Turn>, stream: bool) -> Call {
    Call {
        url: trim_end(p.url, CharClass::Is('/')) + "/models/"@ + p.model + (if stream {
            ":streamGenerateContent?alt=sse&key="@
        } else {
            ":generateContent?key="@
        }) + key_or_empty(p.key),
        bearer: None,
        headers: seq![],
        body: gemini_body(p, list),
    }
}

/// What a request to Ollama says.
pub open spec fn ollama_body(p: Provider, list: Seq<Turn>, stream: bool) -> JsonModel {
    let whole = seq![
        ("model"@, JsonModel::Text(p.model)),
        ("stream"@, JsonModel::Bool(stream)),
        ("messages"@, all_turns(list)),
    ];
    let options = match stop_value(p.stops) {
        Some(stops) => Some(JsonModel::Object(seq![("stop"@, stops)])),
        None => None,
    };
    JsonModel::Object(extended(extended(whole, "think"@, think_value(p.think)), "options"@, options))
}

/// A request to Ollama.
pub open spec fn ollama_call(p: Provider, list: Seq<Turn>, stream: bool) -> Call {
    Call { url: p.url, bearer: None, headers: seq![], body: ollama_body(p, list, stream) }
}

/// The request that carries a conversation to its provider.
pub open spec fn call_of(p: Provider, list: Seq<Turn>, stream: bool) -> Call {
    match p.kind {
        ProviderKind::Openai | ProviderKind::Openrouter | ProviderKind::CustomOpenai => openai_call(
            p,
            list,
            stream,
        ),
        ProviderKind::Anthropic => anthropic_call(p, list, stream),
        ProviderKind::Gemini => gemini_call(p, list, stream),
        ProviderKind::Ollama => ollama_call(p, list, stream),
    }
}

fn flag_json(wanted: bool) -> (r: Option<Json>)
    ensures
        match r {
            Some(v) => flag(wanted) == Some(v@),
            None => flag(wanted) is None,
        },
{
    if wanted {
        Some(Json::Bool(true))
    } else {
        None
    }
}

impl ProviderClient {
    /// The provider that settings name.
    pub fn new(config: &Config) -> (r: ProviderClient)
        requires
            config.base_url is Some,
            config.model is Some,
        ensures
            r@ == provider_of(*config),
    {
        let r = ProviderClient {
            kind: config.provider,
            api_key: copy_opt(&config.api_key),
            base_url: config.base_url().to_owned(),
            model: config.model().to_owned(),
            think: config.think,
            stop_sequences: copies(&config.stop_sequences),
        };
        assert(r@.stops =~= provider_of(*config).stops);
        r
    }

    /// The model in use.
    pub fn model(&self) -> (r: &str)
        ensures
            r@ == self@.model,
    {
        self.model.as_str()
    }

    /// Changes the model.
    pub fn set_model(&mut self, model: String)
        ensures
            final(self)@ == (Provider { model: model@, ..old(self)@ }),
    {
        self.model = model;
    }

    /// How much the model is asked to think.
    pub fn think(&self) -> (r: ThinkMode)
        ensures
            r == self@.think,
    {
        self.think
    }

    /// Changes how much the model is asked to think.
    pub fn set_think(&mut self, think: ThinkMode)
        ensures
            final(self)@ == (Provider { think, ..old(self)@ }),
    {
        self.think = think;
    }

    /// The texts at which a reply ends.
    pub fn stop_sequences(&self) -> (r: &[String])
        ensures
            texts(r@) == self@.stops,
    {
        self.stop_sequences.as_slice()
    }

    /// Changes the texts at which a reply ends.
    pub fn set_stop_sequences(&mut self, stop_sequences: Vec<String>)
        ensures
            final(self)@ == (Provider { stops: texts(stop_sequences@), ..old(self)@ }),
    {
        self.stop_sequences = stop_sequences;
    }

    fn stop_json(&self) -> (r: Option<Json>)
        ensures
            match r {
                Some(v) => stop_value(self@.stops) == Some(v@),
                None => stop_value(self@.stops) is None,
            },
    {
        if self.stop_sequences.len() == 0 {
            None
        } else {
            Some(list_of(&self.stop_sequences))
        }
    }

    fn key_or_nothing(&self) -> (r: String)
        ensures
            r@ == key_or_empty(self@.key),
    {
        match &self.api_key {
            Some(key) => key.clone(),
            None => "".to_owned(),
        }
    }

    /// Adds the stop sequences to a request to an OpenAI-compatible provider.
    fn add_openai_stop(&self, body: Json) -> (r: Json)
        requires
            body is Object,
        ensures
            r is Object,
            r@ == JsonModel::Object(
                extended(body@->Object_0, "stop"@, stop_value(self@.stops)),
            ),
    {
        extend(body, "stop", self.stop_json())
    }

    /// Adds the stop sequences to a request to Anthropic.
    fn add_anthropic_stop(&self, body: Json) -> (r: Json)
        requires
            body is Object,
        ensures
            r is Object,
            r@ == JsonModel::Object(
                extended(body@->Object_0, "stop_sequences"@, stop_value(self@.stops)),
            ),
    {
        extend(body, "stop_sequences", self.stop_json())
    }

    /// Adds the stop sequences to the settings of a request to Gemini.
    fn add_gemini_stop(&self, settings: Json) -> (r: Json)
        requires
            settings is Object,
        ensures
            r is Object,
            r@ == JsonModel::Object(
                extended(settings@->Object_0, "stopSequences"@, stop_value(self@.stops)),
            ),
    {
        extend(settings, "stopSequences", self.stop_json())
    }

    /// Adds thinking and stop sequences to a request to Ollama.
    fn add_ollama_controls(&self, body: Json) -> (r: Json)
        requires
            body is Object,
        ensures
            r is Object,
            r@ == JsonModel::Object(
                extended(
                    extended(body@->Object_0, "think"@, think_value(self@.think)),
                    "options"@,
                    match stop_value(self@.stops) {
                        Some(stops) => Some(JsonModel::Object(seq![("stop"@, stops)])),
                        None => None,
                    },
                ),
            ),
    {
        let body = extend(body, "think", self.think.as_request_value());
        match self.stop_json() {
            Some(stops) => {
                let options = with(object(), "stop", stops);
                assert(options@->Object_0 =~= seq![("stop"@, stops@)]);
                extend(body, "options", Some(options))
            },
            None => body,
        }
    }

    /// A request to an OpenAI-compatible provider.
    pub fn openai_compatible(&self, messages: &[Message], stream: bool) -> (r: Request)
        ensures
            r@ == openai_call(self@, turns(messages@), stream),
    {
        let head = with(object(), "model", text(&self.model));
        assert(head@->Object_0 =~= seq![("model"@, JsonModel::Text(self@.model))]);
        let head = extend(head, "stream", flag_json(stream));
        let body = with(
            with(head, "messages", all_turns_json(messages)),
            "temperature",
            Json::Number("0.2".to_owned()),
        );
        let body = self.add_openai_stop(body);
        let mut headers: Vec<(String, String)> = Vec::new();
        if self.kind == ProviderKind::Openrouter {
            headers.push(("HTTP-Referer".to_owned(), "https://localhost".to_owned()));
            headers.push(("X-Title".to_owned(), "coding-agent-rs".to_owned()));
        }
        let r = Request {
            url: self.base_url.clone(),
            bearer: copy_opt(&self.api_key),
            headers,
            body,
        };
        assert(r@.headers =~= openai_call(self@, turns(messages@), stream).headers);
        r
    }

    /// A request to Anthropic.
    pub fn anthropic(&self, messages: &[Message], stream: bool) -> (r: Request)
        ensures
            r@ == anthropic_call(self@, turns(messages@), stream),
    {
        let head = with(
            with(object(), "model", text(&self.model)),
            "max_tokens",
            Json::Number("4096".to_owned()),
        );
        assert(head@->Object_0 =~= seq![
            ("model"@, JsonModel::Text(self@.model)),
            ("max_tokens"@, JsonModel::Number("4096"@)),
        ]);
        let head = extend(head, "stream", flag_json(stream));
        let (system, chat) = split_system(messages);
        let body = with(with(head, "system", text(&join(&system, "\n\n"))), "messages", chat);
        let body = self.add_anthropic_stop(body);
        let mut headers: Vec<(String, String)> = Vec::new();
        headers.push(("x-api-key".to_owned(), self.key_or_nothing()));
        headers.push(("anthropic-version".to_owned(), "2023-06-01".to_owned()));
        let r = Request { url: self.base_url.clone(), bearer: None, headers, body };
        assert(r@.headers =~= anthropic_call(self@, turns(messages@), stream).headers);
        r
    }

    /// A request to Gemini.
    pub fn gemini(&self, messages: &[Message], stream: bool) -> (r: Request)
        ensures
            r@ == gemini_call(self@, turns(messages@), stream),
    {
        let prompt = join(&spoken_of(messages), "\n\n");
        let part = with(object(), "text", text(&prompt));
        assert(part@->Object_0 =~= seq![("text"@, JsonModel::Text(prompt@))]);
        let parts = with_item(list(), part);
        assert(parts@->Array_0 =~= seq![part@]);
        let content = with(with(object(), "role", text("user")), "parts", parts);
        assert(content@->Object_0 =~= seq![
            ("role"@, JsonModel::Text("user"@)),
            ("parts"@, JsonModel::Array(seq![part@])),
        ]);
        let contents = with_item(list(), content);
        assert(contents@->Array_0 =~= seq![content@]);
        let settings = with(object(), "temperature", Json::Number("0.2".to_owned()));
        assert(settings@->Object_0 =~= seq![("temperature"@, JsonModel::Number("0.2"@))]);
        let settings = self.add_gemini_stop(settings);
        let body = with(with(object(), "contents", contents), "generationConfig", settings);
        assert(body@->Object_0 =~= seq![
            ("contents"@, JsonModel::Array(seq![content@])),
            ("generationConfig"@, settings@),
        ]);
        let mut url = trim_end_of(&self.base_url, CharClass::Is('/'));
        url.append("/models/");
        url.append(self.model.as_str());
        if stream {
            url.append(":streamGenerateContent?alt=sse&key=");
        } else {
            url.append(":generateContent?key=");
        }
        url.append(self.key_or_nothing().as_str());
        let r = Request { url, bearer: None, headers: Vec::new(), body };
        assert(r@.headers =~= seq![]);
        r
    }

    /// A request to Ollama.
    pub fn ollama(&self, messages: &[Message], stream: bool) -> (r: Request)
        ensures
            r@ == ollama_call(self@, turns(messages@), stream),
    {
        let body = with(
            with(with(object(), "model", text(&self.model)), "stream", Json::Bool(stream)),
            "messages",
            all_turns_json(messages),
        );
        assert(body@->Object_0 =~= seq![
            ("model"@, JsonModel::Text(self@.model)),
            ("stream"@, JsonModel::Bool(stream)),
            ("messages"@, all_turns(turns(messages@))),
        ]);
        let body = self.add_ollama_controls(body);
        let r = Request { url: self.base_url.clone(), bearer: None, headers: Vec::new(), body };
        assert(r@.headers =~= seq![]);
        r
    }

    /// The request that carries a conversation to the provider.
    pub fn request(&self, messages: &[Message], stream: bool) -> (r: Request)
        ensures
            r@ == call_of(self@, turns(messages@), stream),
    {
        match self.kind {
            ProviderKind::Openai | ProviderKind::Openrouter | ProviderKind::CustomOpenai => {
                self.openai_compatible(messages, stream)
            },
            ProviderKind::Anthropic => self.anthropic(messages, stream),
            ProviderKind::Gemini => self.gemini(messages, stream),
            ProviderKind::Ollama => self.ollama(messages, stream),
        }
    }
}

/// The contents of the system turns, and the other turns as a value.
fn split_system(messages: &[Message]) -> (r: (Vec<String>, Json))
    ensures
        texts(r.0@) == system_texts(turns(messages@)),
        r.1@ == all_turns(chat_turns(turns(messages@))),
{
    let mut system: Vec<String> = Vec::new();
    let mut chat = list();
    let mut i: usize = 0;
    let ghost all = turns(messages@);
    assert(all.take(0) =~= seq![]);
    assert(texts(system@) =~= seq![]);
    assert(all_turns(chat_turns(all.take(0)))->Array_0 =~= seq![]);
    while i < messages.len()
        invariant
            i <= messages@.len(),
            all == turns(messages@),
            texts(system@) == system_texts(all.take(i as int)),
            chat is Array,
            chat@ == all_turns(chat_turns(all.take(i as int))),
        decreases messages@.len() - i,
    {
        let ghost had = texts(system@);
        let ghost talk = chat_turns(all.take(i as int));
        let message = &messages[i];
        assert(all[i as int] == message@);
        assert(all.take(i + 1).drop_last() =~= all.take(i as int));
        assert(all.take(i + 1).last() == message@);
        if message.role == Role::System {
            system.push(message.content.clone());
            assert(texts(system@) =~= had.push(message.content@));
        } else {
            chat = with_item(chat, turn_json(role_name(&message.role), &message.content));
            assert(chat@->Array_0 =~= all_turns(talk.push(message@))->Array_0);
        }
        i += 1;
    }
    assert(all.take(all.len() as int) =~= all);
    (system, chat)
}

/// Each turn behind the name of its role.
fn spoken_of(messages: &[Message]) -> (r: Vec<String>)
    ensures
        texts(r@) == spoken(turns(messages@)),
{
    let mut out: Vec<String> = Vec::new();
    let mut i: usize = 0;
    while i < messages.len()
        invariant
            i <= messages@.len(),
            out@.len() == i,
            forall|j: int|
                0 <= j < i ==> (#[trigger] out@[j])@ == role_word(messages@[j].role) + ": "@
                    + messages@[j].content@,
        decreases messages@.len() - i,
    {
        let mut line = role_name(&messages[i].role).to_owned();
        line.append(": ");
        line.append(messages[i].content.as_str());
        out.push(line);
        i += 1;
    }
    assert(texts(out@) =~= spoken(turns(messages@)));
    out
}


// ---------------------------------------------------------------------------
// Whole replies
// ---------------------------------------------------------------------------

/// The texts of the parts of a reply, if they say anything.
pub open spec fn parts_answer(parts: JsonModel) -> Option<Seq<char>> {
    match parts {
        JsonModel::Array(items) => if joined(part_texts(items), ""@).len() > 0 {
            Some(joined(part_texts(items), ""@))
        } else {
            None
        },
        _ => None,
    }
}

/// The answer in a whole reply.
pub open spec fn answer_in(kind: ProviderKind, value: JsonModel) -> Option<Seq<char>> {
    match kind {
        ProviderKind::Openai | ProviderKind::Openrouter | ProviderKind::CustomOpenai => as_text(
            at_key(at_key(at_index(at_key(value, "choices"@), 0), "message"@), "content"@),
        ),
        ProviderKind::Anthropic => parts_answer(at_key(value, "content"@)),
        ProviderKind::Gemini => parts_answer(
            at_key(at_key(at_index(at_key(value, "candidates"@), 0), "content"@), "parts"@),
        ),
        ProviderKind::Ollama => as_text(at_key(at_key(value, "message"@), "content"@)),
    }
}

/// What errors call a provider.
pub open spec fn service(kind: ProviderKind) -> Seq<char> {
    match kind {
        ProviderKind::Openai | ProviderKind::Openrouter | ProviderKind::CustomOpenai =>
            "OpenAI-compatible"@,
        ProviderKind::Anthropic => "Anthropic"@,
        ProviderKind::Gemini => "Gemini"@,
        ProviderKind::Ollama => "Ollama"@,
    }
}

/// What errors call a provider.
pub fn service_name(kind: ProviderKind) -> (r: &'static str)
    ensures
        r@ == service(kind),
{
    match kind {
        ProviderKind::Openai | ProviderKind::Openrouter | ProviderKind::CustomOpenai => {
            "OpenAI-compatible"
        },
        ProviderKind::Anthropic => "Anthropic",
        ProviderKind::Gemini => "Gemini",
        ProviderKind::Ollama => "Ollama",
    }
}

fn parts_text(value: Option<&Json>) -> (r: Option<String>)
    ensures
        opt_text(r) == parts_answer(seen(value)),
{
    match texts_of_parts(value) {
        Some(list) => {
            let answer = join(&list, "");
            if answer.as_str().unicode_len() > 0 {
                Some(answer)
            } else {
                None
            }
        },
        None => None,
    }
}

/// The answer in a whole reply. The error says what the reply was instead; `shown` is
/// the reply as text.
pub fn answer_of(kind: ProviderKind, value: &Json, shown: &str) -> (r: Result<String, String>)
    ensures
        match r {
            Ok(answer) => answer_in(kind, value@) == Some(answer@),
            Err(e) => answer_in(kind, value@) is None && e@ == "unexpected "@ + service(kind)
                + " response: "@ + shown@,
        },
{
    let root = Some(value);
    let answer = match kind {
        ProviderKind::Openai | ProviderKind::Openrouter | ProviderKind::CustomOpenai => text_of(
            key_of(key_of(item_of(key_of(root, "choices"), 0), "message"), "content"),
        ),
        ProviderKind::Anthropic => parts_text(key_of(root, "content")),
        ProviderKind::Gemini => parts_text(
            key_of(key_of(item_of(key_of(root, "candidates"), 0), "content"), "parts"),
        ),
        ProviderKind::Ollama => text_of(key_of(key_of(root, "message"), "content")),
    };
    match answer {
        Some(answer) => Ok(answer),
        None => {
            let mut out = "unexpected ".to_owned();
            out.append(service_name(kind));
            out.append(" response: ");
            out.append(shown);
            Err(out)
        },
    }
}

// ---------------------------------------------------------------------------
// Streamed replies
// ---------------------------------------------------------------------------

/// What one event of a stream brings.
#[derive(Debug)]
pub struct Step {
    pub deltas: Vec<Delta>,
    pub done: bool,
}

/// What one event of a stream brings as a mathematical object.
pub ghost struct Brought {
    pub pieces: Seq<Piece>,
    pub done: bool,
}

/// The pieces of a list of deltas.
pub open spec fn pieces_of(deltas: Seq<Delta>) -> Seq<Piece> {
    Seq::new(deltas.len(), |i: int| deltas[i]@)
}

impl View for Step {
    type V = Brought;

    open spec fn view(&self) -> Brought {
        Brought { pieces: pieces_of(self.deltas@), done: self.done }
    }
}

/// The content that an optional text is.
pub open spec fn content_piece(t: Option<Seq<char>>) -> Seq<Piece> {
    match t {
        Some(t) => seq![Piece::Content(t)],
        None => seq![],
    }
}

/// The thinking that an optional text is.
pub open spec fn thinking_piece(t: Option<Seq<char>>) -> Seq<Piece> {
    match t {
        Some(t) => seq![Piece::Thinking(t)],
        None => seq![],
    }
}

/// What one event brings, given the value that it is.
pub open spec fn brought(kind: ProviderKind, value: JsonModel) -> Brought {
    match kind {
        ProviderKind::Openai | ProviderKind::Openrouter | ProviderKind::CustomOpenai => Brought {
            pieces: content_piece(
                as_text(
                    at_key(at_key(at_index(at_key(value, "choices"@), 0), "delta"@), "content"@),
                ),
            ),
            done: false,
        },
        ProviderKind::Anthropic => if as_text(at_key(value, "type"@)) == Some("message_stop"@) {
            Brought { pieces: seq![], done: true }
        } else {
            Brought {
                pieces: content_piece(as_text(at_key(at_key(value, "delta"@), "text"@))),
                done: false,
            }
        },
        ProviderKind::Gemini => Brought {
            pieces: match at_key(
                at_key(at_index(at_key(value, "candidates"@), 0), "content"@),
                "parts"@,
            ) {
                JsonModel::Array(parts) => part_texts(parts).map_values(
                    |t: Seq<char>| Piece::Content(t),
                ),
                _ => seq![],
            },
            done: false,
        },
        ProviderKind::Ollama => Brought {
            pieces: content_piece(as_text(at_key(at_key(value, "message"@), "content"@)))
                + thinking_piece(as_text(at_key(at_key(value, "message"@), "thinking"@))),
            done: at_key(value, "done"@) == JsonModel::Bool(true),
        },
    }
}

fn content_delta(t: Option<String>) -> (r: Vec<Delta>)
    ensures
        pieces_of(r@) == content_piece(opt_text(t)),
{
    let mut out: Vec<Delta> = Vec::new();
    if let Some(t) = t {
        out.push(Delta::Content(t));
    }
    assert(pieces_of(out@) =~= content_piece(opt_text(t)));
    out
}

/// What one event brings, given the value that it is.
pub fn read_event(kind: ProviderKind, value: &Json) -> (r: Step)
    ensures
        r@ == brought(kind, value@),
{
    let root = Some(value);
    match kind {
        ProviderKind::Openai | ProviderKind::Openrouter | ProviderKind::CustomOpenai => {
            let delta = text_of(
                key_of(key_of(item_of(key_of(root, "choices"), 0), "delta"), "content"),
            );
            Step { deltas: content_delta(delta), done: false }
        },
        ProviderKind::Anthropic => {
            let stop = match text_of(key_of(root, "type")) {
                Some(name) => same(&name, "message_stop"),
                None => false,
            };
            if stop {
                let r = Step { deltas: Vec::new(), done: true };
                assert(r@.pieces =~= seq![]);
                r
            } else {
                let delta = text_of(key_of(key_of(root, "delta"), "text"));
                Step { deltas: content_delta(delta), done: false }
            }
        },
        ProviderKind::Gemini => {
            let parts = key_of(key_of(item_of(key_of(root, "candidates"), 0), "content"), "parts");
            let mut deltas: Vec<Delta> = Vec::new();
            if let Some(list) = texts_of_parts(parts) {
                let mut i: usize = 0;
                while i < list.len()
                    invariant
                        i <= list@.len(),
                        deltas@.len() == i,
                        forall|j: int|
                            0 <= j < i ==> (#[trigger] deltas@[j])@ == Piece::Content(list@[j]@),
                    decreases list@.len() - i,
                {
                    deltas.push(Delta::Content(list[i].clone()));
                    i += 1;
                }
                assert(pieces_of(deltas@) =~= texts(list@).map_values(
                    |t: Seq<char>| Piece::Content(t),
                ));
            }
            assert(!(seen(parts) is Array) ==> pieces_of(deltas@) =~= seq![]);
            Step { deltas, done: false }
        },
        ProviderKind::Ollama => {
            let message = key_of(root, "message");
            let mut deltas = content_delta(text_of(key_of(message, "content")));
            let ghost had = pieces_of(deltas@);
            if let Some(t) = text_of(key_of(message, "thinking")) {
                let ghost tv = t@;
                deltas.push(Delta::Thinking(t));
                assert(pieces_of(deltas@) =~= had + seq![Piece::Thinking(tv)]);
            }
            let r = Step { deltas, done: is_true(key_of(root, "done")) };
            assert(r@.pieces =~= brought(kind, value@).pieces);
            r
        },
    }
}

/// What a line of a stream carries.
pub ghost enum Carried {
    /// Nothing.
    Nothing,
    /// The end of the stream.
    End,
    /// The text of an event.
    Event(Seq<char>),
}

/// What a line of a stream carries: Ollama sends one event a line, the others mark the
/// lines that carry one with `data:`.
pub open spec fn carried(kind: ProviderKind, line: Seq<char>) -> Carried {
    match kind {
        ProviderKind::Ollama => if trimmed(line).len() == 0 {
            Carried::Nothing
        } else {
            Carried::Event(line)
        },
        _ => match without_prefix(line, "data:"@) {
            None => Carried::Nothing,
            Some(rest) => {
                let data = trimmed(rest);
                if data == "[DONE]"@ && kind == ProviderKind::Anthropic {
                    Carried::Nothing
                } else if data == "[DONE]"@ && kind != ProviderKind::Gemini {
                    Carried::End
                } else if data.len() == 0 {
                    Carried::Nothing
                } else {
                    Carried::Event(data)
                }
            },
        },
    }
}

/// What went wrong with an event: its text, and what the reader said.
#[derive(Debug)]
pub struct StreamError {
    pub kind: ProviderKind,
    pub event: String,
    pub cause: String,
}

/// What went wrong with an event as a mathematical object.
pub ghost struct Fault {
    pub kind: ProviderKind,
    pub event: Seq<char>,
    pub cause: Seq<char>,
}

impl View for StreamError {
    type V = Fault;

    open spec fn view(&self) -> Fault {
        Fault { kind: self.kind, event: self.event@, cause: self.cause@ }
    }
}

impl StreamError {
    /// What the user reads of the error.
    pub fn message(&self) -> (r: String)
        ensures
            r@ == "invalid "@ + service(self@.kind) + " stream event: "@ + self@.event,
    {
        let mut out = "invalid ".to_owned();
        out.append(service_name(self.kind));
        out.append(" stream event: ");
        out.append(self.event.as_str());
        out
    }
}

/// What a line of a stream brings, or what is wrong with it.
pub open spec fn line_brings(kind: ProviderKind, line: Seq<char>) -> Result<Brought, Fault> {
    match carried(kind, line) {
        Carried::Nothing => Ok(Brought { pieces: seq![], done: false }),
        Carried::End => Ok(Brought { pieces: seq![], done: true }),
        Carried::Event(event) => match json_read(event) {
            Ok(value) => Ok(brought(kind, value)),
            Err(cause) => Err(Fault { kind, event, cause }),
        },
    }
}

fn quiet(done: bool) -> (r: Step)
    ensures
        r@ == (Brought { pieces: seq![], done }),
{
    let r = Step { deltas: Vec::new(), done };
    assert(r@.pieces =~= seq![]);
    r
}

fn event_step(kind: ProviderKind, event: &str) -> (r: Result<Step, StreamError>)
    ensures
        match r {
            Ok(step) => json_read(event@) matches Ok(value) && step@ == brought(kind, value),
            Err(e) => json_read(event@) matches Err(cause) && e@ == (Fault {
                kind,
                event: event@,
                cause,
            }),
        },
{
    match parse_json(event) {
        Ok(value) => Ok(read_event(kind, &value)),
        Err(cause) => Err(StreamError { kind, event: event.to_owned(), cause }),
    }
}

/// Reads a line of a stream.
pub fn read_line(kind: ProviderKind, line: &str) -> (r: Result<Step, StreamError>)
    ensures
        match r {
            Ok(step) => line_brings(kind, line@) == Ok::<Brought, Fault>(step@),
            Err(e) => line_brings(kind, line@) == Err::<Brought, Fault>(e@),
        },
{
    if kind == ProviderKind::Ollama {
        if trim_white(line).as_str().unicode_len() == 0 {
            return Ok(quiet(false));
        }
        return event_step(kind, line);
    }
    match strip_prefix_of(line, "data:") {
        None => Ok(quiet(false)),
        Some(rest) => {
            let data = trim_white(&rest);
            if same(&data, "[DONE]") && kind == ProviderKind::Anthropic {
                Ok(quiet(false))
            } else if same(&data, "[DONE]") && kind != ProviderKind::Gemini {
                Ok(quiet(true))
            } else if data.as_str().unicode_len() == 0 {
                Ok(quiet(false))
            } else {
                event_step(kind, &data)
            }
        },
    }
}

/// How a stream stands.
#[derive(Debug)]
pub enum StreamStatus {
    /// More may come.
    Open,
    /// The reply is complete.
    Done,
    /// An event could not be read.
    Failed(StreamError),
}

/// How a stream stands as a mathematical object.
pub ghost enum Standing {
    Open,
    Done,
    Failed(Fault),
}

impl View for StreamStatus {
    type V = Standing;

    open spec fn view(&self) -> Standing {
        match self {
            StreamStatus::Open => Standing::Open,
            StreamStatus::Done => Standing::Done,
            StreamStatus::Failed(e) => Standing::Failed(e@),
        }
    }
}

/// A reply that arrives in pieces of text, which need not end where its lines end.
pub struct LineStream {
    pub kind: ProviderKind,
    /// What arrived of a line that has not ended.
    pub buffered: String,
    /// The answer so far.
    pub answer: String,
    /// What was read and not taken yet.
    pub deltas: Vec<Delta>,
    pub status: StreamStatus,
}

/// A reply that arrives in pieces as a mathematical object.
pub ghost struct Reply {
    pub kind: ProviderKind,
    pub buffered: Seq<char>,
    pub answer: Seq<char>,
    pub pieces: Seq<Piece>,
    pub status: Standing,
}

impl View for LineStream {
    type V = Reply;

    open spec fn view(&self) -> Reply {
        Reply {
            kind: self.kind,
            buffered: self.buffered@,
            answer: self.answer@,
            pieces: pieces_of(self.deltas@),
            status: self.status@,
        }
    }
}

/// The content of a list of pieces, in order.
pub open spec fn content_of(pieces: Seq<Piece>) -> Seq<char>
    decreases pieces.len(),
{
    if pieces.len() == 0 {
        seq![]
    } else {
        match pieces.last() {
            Piece::Content(t) => content_of(pieces.drop_last()) + t,
            Piece::Thinking(t) => content_of(pieces.drop_last()),
        }
    }
}

/// A reply after one more line.
pub open spec fn heard(m: Reply, line: Seq<char>) -> Reply {
    match line_brings(m.kind, line) {
        Err(fault) => Reply { status: Standing::Failed(fault), ..m },
        Ok(b) => Reply {
            answer: m.answer + content_of(b.pieces),
            pieces: m.pieces + b.pieces,
            status: if b.done {
                Standing::Done
            } else {
                m.status
            },
            ..m
        },
    }
}

/// A reply after each complete line of what is buffered was read, up to the line that
/// ends it.
pub open spec fn lines_read(m: Reply) -> Reply
    decreases m.buffered.len(),
{
    if m.status != Standing::Open {
        m
    } else {
        match find(m.buffered, "\n"@) {
            None => m,
            Some(i) => {
                let line = trim_end(m.buffered.take(i), CharClass::Is('\r'));
                let rest = Reply { buffered: m.buffered.skip(i + 1), ..m };
                if 0 <= i < m.buffered.len() {
                    lines_read(heard(rest, line))
                } else {
                    m
                }
            },
        }
    }
}

/// A reply after more text arrived.
pub open spec fn fed(m: Reply, more: Seq<char>) -> Reply {
    lines_read(Reply { buffered: m.buffered + more, ..m })
}

/// A reply at the end of the text: what is left counts as a line.
pub open spec fn closed(m: Reply) -> Reply {
    if m.status != Standing::Open {
        m
    } else {
        let last = if trimmed(m.buffered).len() == 0 {
            m
        } else {
            heard(m, trim_end(m.buffered, CharClass::Is('\r')))
        };
        Reply {
            buffered: seq![],
            status: if last.status is Failed {
                last.status
            } else {
                Standing::Done
            },
            ..last
        }
    }
}

/// A reply of which nothing arrived.
pub open spec fn silence(kind: ProviderKind) -> Reply {
    Reply { kind, buffered: seq![], answer: seq![], pieces: seq![], status: Standing::Open }
}

/// `String::from_utf8_lossy` on a chunk of bytes.
pub uninterp spec fn lossy_text(bytes: Seq<u8>) -> Seq<char>;

/// `String::from_utf8_lossy`: the text of some bytes, with a mark in place of what is no
/// text. It depends on the bytes alone, and bytes that are the encoding of a text give that
/// text.
#[verifier::external_body]
pub(crate) fn text_of_bytes(bytes: &[u8]) -> (r: String)
    ensures
        r@ == lossy_text(bytes@),
        forall|s: Seq<char>| #[trigger] encode_utf8(s) == bytes@ ==> r@ == s,
{
    String::from_utf8_lossy(bytes).into_owned()
}

/// The content of two lists of pieces is the content of one behind that of the other.
pub proof fn lemma_content_of_both(a: Seq<Piece>, b: Seq<Piece>)
    ensures
        content_of(a + b) == content_of(a) + content_of(b),
    decreases b.len(),
{
    if b.len() == 0 {
        assert(a + b =~= a);
        assert(content_of(a) + content_of(b) =~= content_of(a));
    } else {
        assert((a + b).drop_last() =~= a + b.drop_last());
        assert((a + b).last() == b.last());
        lemma_content_of_both(a, b.drop_last());
        match b.last() {
            Piece::Content(t) => {
                assert(content_of(a) + content_of(b.drop_last()) + t =~= content_of(a) + (
                content_of(b.drop_last()) + t));
            },
            Piece::Thinking(t) => {},
        }
    }
}

impl LineStream {
    /// A reply of which nothing arrived.
    pub fn new(kind: ProviderKind) -> (r: LineStream)
        ensures
            r@ == silence(kind),
    {
        let r = LineStream {
            kind,
            buffered: "".to_owned(),
            answer: "".to_owned(),
            deltas: Vec::new(),
            status: StreamStatus::Open,
        };
        proof {
            reveal_strlit("");
            assert(r@.buffered =~= seq![]);
            assert(r@.answer =~= seq![]);
            assert(r@.pieces =~= seq![]);
        }
        r
    }

    /// Whether more may come.
    pub fn is_open(&self) -> (r: bool)
        ensures
            r == (self@.status == Standing::Open),
    {
        match self.status {
            StreamStatus::Open => true,
            _ => false,
        }
    }

    /// Takes what was read.
    pub fn take_deltas(&mut self) -> (r: Vec<Delta>)
        ensures
            pieces_of(r@) == old(self)@.pieces,
            final(self)@ == (Reply { pieces: seq![], ..old(self)@ }),
    {
        let mut taken: Vec<Delta> = Vec::new();
        std::mem::swap(&mut taken, &mut self.deltas);
        assert(self@.pieces =~= seq![]);
        taken
    }

    /// Reads one line.
    fn hear(&mut self, line: &str)
        ensures
            final(self)@ == heard(old(self)@, line@),
    {
        match read_line(self.kind, line) {
            Err(e) => {
                self.status = StreamStatus::Failed(e);
            },
            Ok(step) => {
                let ghost before = self@;
                let ghost b = step@;
                if step.done {
                    self.status = StreamStatus::Done;
                }
                let mut deltas = step.deltas;
                self.take_in(&mut deltas);
                assert(self@.answer == before.answer + content_of(b.pieces));
                assert(self@.pieces == before.pieces + b.pieces);
            },
        }
    }

    /// Adds pieces to what was read.
    fn take_in(&mut self, deltas: &mut Vec<Delta>)
        ensures
            final(self)@ == (Reply {
                answer: old(self)@.answer + content_of(pieces_of(old(deltas)@)),
                pieces: old(self)@.pieces + pieces_of(old(deltas)@),
                ..old(self)@
            }),
    {
        let ghost start = self@;
        let ghost all = pieces_of(deltas@);
        let mut i: usize = 0;
        assert(all.take(0) =~= seq![]);
        assert(start.answer + content_of(all.take(0)) =~= start.answer);
        while i < deltas.len()
            invariant
                i <= deltas@.len(),
                all == pieces_of(deltas@),
                self@.answer == start.answer + content_of(all.take(i as int)),
                self@ == (Reply { answer: self@.answer, ..start }),
            decreases deltas@.len() - i,
        {
            proof {
                assert(all.take(i + 1).drop_last() =~= all.take(i as int));
                assert(all.take(i + 1).last() == deltas@[i as int]@);
            }
            match &deltas[i] {
                Delta::Content(t) => {
                    let ghost had = content_of(all.take(i as int));
                    self.answer.append(t.as_str());
                    assert(start.answer + had + t@ =~= start.answer + (had + t@));
                },
                Delta::Thinking(_) => {},
            }
            i += 1;
        }
        assert(all.take(all.len() as int) =~= all);
        let ghost mine = self.deltas@;
        let ghost theirs = deltas@;
        self.deltas.append(deltas);
        assert(pieces_of(mine + theirs) =~= pieces_of(mine) + pieces_of(theirs));
    }

    /// Reads text that arrived.
    pub fn push_text(&mut self, more: &str)
        ensures
            final(self)@ == fed(old(self)@, more@),
    {
        self.buffered.append(more);
        let ghost start = self@;
        while self.is_open()
            invariant
                lines_read(start) == fed(old(self)@, more@),
                lines_read(self@) == lines_read(start),
            decreases self.buffered@.len(),
        {
            match find_in(&self.buffered, "\n") {
                None => {
                    return;
                },
                Some(i) => {
                    proof {
                        reveal_strlit("\n");
                    }
                    let line = trim_end_of(&before(&self.buffered, i), CharClass::Is('\r'));
                    self.buffered = after(&self.buffered, i + 1);
                    self.hear(&line);
                },
            }
        }
    }

    /// Reads bytes that arrived.
    pub fn push_chunk(&mut self, chunk: &[u8])
        ensures
            final(self)@ == fed(old(self)@, lossy_text(chunk@)),
            forall|s: Seq<char>| #[trigger]
                encode_utf8(s) == chunk@ ==> final(self)@ == fed(old(self)@, s),
    {
        let more = text_of_bytes(chunk);
        self.push_text(&more);
    }

    /// Reads what is left at the end.
    pub fn finish(&mut self)
        ensures
            final(self)@ == closed(old(self)@),
    {
        if self.is_open() {
            if trim_white(&self.buffered).as_str().unicode_len() > 0 {
                let line = trim_end_of(&self.buffered, CharClass::Is('\r'));
                self.hear(&line);
            }
            self.buffered = "".to_owned();
            proof {
                reveal_strlit("");
                assert(self@.buffered =~= seq![]);
            }
            if self.is_open() {
                self.status = StreamStatus::Done;
            }
        }
    }
}


// ---------------------------------------------------------------------------
// Laws
// ---------------------------------------------------------------------------

/// A reply reads the same however its text is cut into pieces.
pub proof fn law_reply_cut_anywhere(m: Reply, a: Seq<char>, b: Seq<char>)
    ensures
        fed(fed(m, a), b).answer == fed(m, a + b).answer,
        fed(fed(m, a), b).pieces == fed(m, a + b).pieces,
        fed(fed(m, a), b).status == fed(m, a + b).status,
        fed(m, a).status == Standing::Open ==> fed(fed(m, a), b) == fed(m, a + b),
{
    let start = Reply { buffered: m.buffered + a, ..m };
    lemma_lines_read_then_more(start, b);
    assert(m.buffered + a + b =~= m.buffered + (a + b));
}

/// Reading the lines of a text and then more is reading both at once, up to what is left
/// unread behind the end of the reply.
proof fn lemma_lines_read_then_more(m: Reply, b: Seq<char>)
    ensures
        ({
            let one = lines_read(m);
            let both = lines_read(Reply { buffered: m.buffered + b, ..m });
            let two = lines_read(Reply { buffered: one.buffered + b, ..one });
            &&& two.answer == both.answer
            &&& two.pieces == both.pieces
            &&& two.status == both.status
            &&& one.status == Standing::Open ==> two == both
        }),
    decreases m.buffered.len(),
{
    if m.status == Standing::Open {
        let all = Reply { buffered: m.buffered + b, ..m };
        lemma_find(m.buffered, "\n"@);
        reveal_strlit("\n");
        match find(m.buffered, "\n"@) {
            None => {},
            Some(i) => {
                assert forall|j: int| 0 <= j < i implies !#[trigger] crate::text::occurs_at(
                    all.buffered,
                    "\n"@,
                    j,
                ) by {
                    assert(!crate::text::occurs_at(m.buffered, "\n"@, j));
                    assert(all.buffered.subrange(j, j + 1) =~= m.buffered.subrange(j, j + 1));
                }
                assert(all.buffered.subrange(i, i + 1) =~= m.buffered.subrange(i, i + 1));
                crate::text::lemma_find_is(all.buffered, "\n"@, i);
                assert(all.buffered.take(i) =~= m.buffered.take(i));
                let line = trim_end(m.buffered.take(i), CharClass::Is('\r'));
                let rest = Reply { buffered: m.buffered.skip(i + 1), ..m };
                let all_rest = Reply { buffered: all.buffered.skip(i + 1), ..all };
                assert(all.buffered.skip(i + 1) =~= rest.buffered + b);
                assert(heard(all_rest, line) == (Reply {
                    buffered: rest.buffered + b,
                    ..heard(rest, line)
                }));
                lemma_lines_read_then_more(heard(rest, line), b);
            },
        }
    }
}

/// The answer is the content that was handed out, in order: thinking is no part of it.
pub proof fn law_answer_is_the_content(m: Reply, more: Seq<char>)
    requires
        m.answer == content_of(m.pieces),
    ensures
        fed(m, more).answer == content_of(fed(m, more).pieces),
        closed(m).answer == content_of(closed(m).pieces),
{
    lemma_lines_read_answer(Reply { buffered: m.buffered + more, ..m });
    lemma_heard_answer(m, trim_end(m.buffered, CharClass::Is('\r')));
}

proof fn lemma_heard_answer(m: Reply, line: Seq<char>)
    requires
        m.answer == content_of(m.pieces),
    ensures
        heard(m, line).answer == content_of(heard(m, line).pieces),
{
    if let Ok(b) = line_brings(m.kind, line) {
        lemma_content_of_both(m.pieces, b.pieces);
    }
}

proof fn lemma_lines_read_answer(m: Reply)
    requires
        m.answer == content_of(m.pieces),
    ensures
        lines_read(m).answer == content_of(lines_read(m).pieces),
    decreases m.buffered.len(),
{
    if m.status == Standing::Open {
        lemma_find(m.buffered, "\n"@);
        reveal_strlit("\n");
        if let Some(i) = find(m.buffered, "\n"@) {
            let line = trim_end(m.buffered.take(i), CharClass::Is('\r'));
            let rest = Reply { buffered: m.buffered.skip(i + 1), ..m };
            lemma_heard_answer(rest, line);
            lemma_lines_read_answer(heard(rest, line));
        }
    }
}

/// Once a reply is complete or an event of it could not be read, nothing that arrives
/// changes what it says.
pub proof fn law_ended_reply_stays(m: Reply, more: Seq<char>)
    requires
        m.status != Standing::Open,
    ensures
        fed(m, more).answer == m.answer,
        fed(m, more).pieces == m.pieces,
        fed(m, more).status == m.status,
        closed(m) == m,
{
}

/// A reply that has come to its end is not open.
pub proof fn law_closed_reply_is_not_open(m: Reply)
    ensures
        closed(m).status != Standing::Open,
{
}

/// How much the model is asked to think changes no request but one to Ollama.
pub proof fn law_thinking_is_asked_of_ollama_alone(
    p: Provider,
    q: Provider,
    list: Seq<Turn>,
    stream: bool,
)
    requires
        p.kind != ProviderKind::Ollama,
        q == (Provider { think: q.think, ..p }),
    ensures
        call_of(p, list, stream) == call_of(q, list, stream),
{
}


proof fn lemma_openai_body(p: Provider, list: Seq<Turn>, stream: bool)
    ensures
        at_key(openai_body(p, list, stream), "model"@) == JsonModel::Text(p.model),
        at_key(openai_body(p, list, stream), "messages"@) == all_turns(list),
        at_key(openai_body(p, list, stream), "stream"@) == value_or_null(flag(stream)),
        at_key(openai_body(p, list, stream), "stop"@) == value_or_null(stop_value(p.stops)),
{
    lemma_names_differ();
    let none: Seq<(Seq<char>, JsonModel)> = seq![];
    let a = seq![("model"@, JsonModel::Text(p.model))];
    let b = extended(a, "stream"@, flag(stream));
    let c = b.push(("messages"@, all_turns(list)));
    let d = c.push(("temperature"@, JsonModel::Number("0.2"@)));
    assert(a =~= none.push(("model"@, JsonModel::Text(p.model))));
    assert forall|key: Seq<char>|
        key == "model"@ || key == "messages"@ || key == "stream"@ || key
            == "stop"@ implies #[trigger] at_key(openai_body(p, list, stream), key) == (if key
        == "model"@ {
        JsonModel::Text(p.model)
    } else if key == "messages"@ {
        all_turns(list)
    } else if key == "stream"@ {
        value_or_null(flag(stream))
    } else {
        value_or_null(stop_value(p.stops))
    }) by {
        lemma_added_member(none, "model"@, JsonModel::Text(p.model), key);
        lemma_added_member(a, "stream"@, JsonModel::Bool(true), key);
        lemma_added_member(b, "messages"@, all_turns(list), key);
        lemma_added_member(c, "temperature"@, JsonModel::Number("0.2"@), key);
        lemma_added_member(d, "stop"@, text_list(p.stops), key);
    }
}

proof fn lemma_anthropic_body(p: Provider, list: Seq<Turn>, stream: bool)
    ensures
        at_key(anthropic_body(p, list, stream), "model"@) == JsonModel::Text(p.model),
        at_key(anthropic_body(p, list, stream), "messages"@) == all_turns(chat_turns(list)),
        at_key(anthropic_body(p, list, stream), "system"@) == JsonModel::Text(
            joined(system_texts(list), "\n\n"@),
        ),
        at_key(anthropic_body(p, list, stream), "stream"@) == value_or_null(flag(stream)),
        at_key(anthropic_body(p, list, stream), "stop_sequences"@) == value_or_null(
            stop_value(p.stops),
        ),
{
    lemma_names_differ();
    let none: Seq<(Seq<char>, JsonModel)> = seq![];
    let model = JsonModel::Text(p.model);
    let limit = JsonModel::Number("4096"@);
    let system = JsonModel::Text(joined(system_texts(list), "\n\n"@));
    let chat = all_turns(chat_turns(list));
    let a = none.push(("model"@, model));
    let b = a.push(("max_tokens"@, limit));
    assert(b =~= seq![("model"@, model), ("max_tokens"@, limit)]);
    let c = extended(b, "stream"@, flag(stream));
    let d = c.push(("system"@, system));
    let e = d.push(("messages"@, chat));
    assert forall|key: Seq<char>|
        key == "model"@ || key == "messages"@ || key == "system"@ || key == "stream"@ || key
            == "stop_sequences"@ implies #[trigger] at_key(anthropic_body(p, list, stream), key)
        == (if key == "model"@ {
        model
    } else if key == "messages"@ {
        chat
    } else if key == "system"@ {
        system
    } else if key == "stream"@ {
        value_or_null(flag(stream))
    } else {
        value_or_null(stop_value(p.stops))
    }) by {
        lemma_added_member(none, "model"@, model, key);
        lemma_added_member(a, "max_tokens"@, limit, key);
        lemma_added_member(b, "stream"@, JsonModel::Bool(true), key);
        lemma_added_member(c, "system"@, system, key);
        lemma_added_member(d, "messages"@, chat, key);
        lemma_added_member(e, "stop_sequences"@, text_list(p.stops), key);
    }
}

proof fn lemma_ollama_body(p: Provider, list: Seq<Turn>, stream: bool)
    ensures
        at_key(ollama_body(p, list, stream), "model"@) == JsonModel::Text(p.model),
        at_key(ollama_body(p, list, stream), "messages"@) == all_turns(list),
        at_key(ollama_body(p, list, stream), "stream"@) == JsonModel::Bool(stream),
        at_key(ollama_body(p, list, stream), "think"@) == value_or_null(think_value(p.think)),
        at_key(at_key(ollama_body(p, list, stream), "options"@), "stop"@) == value_or_null(
            stop_value(p.stops),
        ),
{
    lemma_names_differ();
    let none: Seq<(Seq<char>, JsonModel)> = seq![];
    let model = JsonModel::Text(p.model);
    let a = none.push(("model"@, model));
    let b = a.push(("stream"@, JsonModel::Bool(stream)));
    let c = b.push(("messages"@, all_turns(list)));
    assert(c =~= seq![
        ("model"@, model),
        ("stream"@, JsonModel::Bool(stream)),
        ("messages"@, all_turns(list)),
    ]);
    let d = extended(c, "think"@, think_value(p.think));
    let stops = none.push(("stop"@, text_list(p.stops)));
    assert(stops =~= seq![("stop"@, text_list(p.stops))]);
    let options = JsonModel::Object(stops);
    lemma_added_member(none, "stop"@, text_list(p.stops), "stop"@);
    assert forall|key: Seq<char>|
        key == "model"@ || key == "messages"@ || key == "stream"@ || key == "think"@ || key
            == "options"@ implies #[trigger] at_key(ollama_body(p, list, stream), key) == (if key
        == "model"@ {
        model
    } else if key == "messages"@ {
        all_turns(list)
    } else if key == "stream"@ {
        JsonModel::Bool(stream)
    } else if key == "think"@ {
        value_or_null(think_value(p.think))
    } else if stop_value(p.stops) is Some {
        options
    } else {
        JsonModel::Null
    }) by {
        lemma_added_member(none, "model"@, model, key);
        lemma_added_member(a, "stream"@, JsonModel::Bool(stream), key);
        lemma_added_member(b, "messages"@, all_turns(list), key);
        lemma_added_member(c, "think"@, value_or_null(think_value(p.think)), key);
        lemma_added_member(d, "options"@, options, key);
    }
}

/// A value, or null where there is none.
pub open spec fn value_or_null(value: Option<JsonModel>) -> JsonModel {
    match value {
        Some(v) => v,
        None => JsonModel::Null,
    }
}

proof fn lemma_names_differ()
    ensures
        "model"@.len() == 5 && "model"@[0] == 'm',
        "think"@.len() == 5 && "think"@[0] == 't',
        "parts"@.len() == 5 && "parts"@[0] == 'p',
        "stream"@.len() == 6 && "stream"@[1] == 't',
        "system"@.len() == 6 && "system"@[1] == 'y',
        "messages"@.len() == 8 && "messages"@[0] == 'm',
        "contents"@.len() == 8 && "contents"@[0] == 'c',
        "temperature"@.len() == 11,
        "max_tokens"@.len() == 10,
        "stop"@.len() == 4 && "stop"@[0] == 's',
        "role"@.len() == 4 && "role"@[0] == 'r',
        "text"@.len() == 4 && "text"@[0] == 't',
        "options"@.len() == 7,
        "stop_sequences"@.len() == 14,
        "stopSequences"@.len() == 13,
        "generationConfig"@.len() == 16,
{
    reveal_strlit("model");
    reveal_strlit("think");
    reveal_strlit("parts");
    reveal_strlit("stream");
    reveal_strlit("system");
    reveal_strlit("messages");
    reveal_strlit("contents");
    reveal_strlit("temperature");
    reveal_strlit("max_tokens");
    reveal_strlit("stop");
    reveal_strlit("role");
    reveal_strlit("text");
    reveal_strlit("options");
    reveal_strlit("stop_sequences");
    reveal_strlit("stopSequences");
    reveal_strlit("generationConfig");
}

/// A request carries the whole conversation, to a provider that takes it turn by turn as
/// its turns, in order.
pub proof fn law_conversations_are_carried(p: Provider, list: Seq<Turn>, stream: bool)
    requires
        p.kind != ProviderKind::Gemini,
    ensures
        p.kind != ProviderKind::Anthropic ==> at_key(
            call_of(p, list, stream).body,
            "messages"@,
        ) == all_turns(list),
        p.kind == ProviderKind::Anthropic ==> at_key(
            call_of(p, list, stream).body,
            "messages"@,
        ) == all_turns(chat_turns(list)) && at_key(call_of(p, list, stream).body, "system"@)
            == JsonModel::Text(joined(system_texts(list), "\n\n"@)),
        at_key(call_of(p, list, stream).body, "model"@) == JsonModel::Text(p.model),
{
    lemma_openai_body(p, list, stream);
    lemma_anthropic_body(p, list, stream);
    lemma_ollama_body(p, list, stream);
}

/// A request to Gemini carries the whole conversation as one text.
pub proof fn law_gemini_takes_one_text(p: Provider, list: Seq<Turn>)
    ensures
        as_text(
            at_key(
                at_index(
                    at_key(at_index(at_key(gemini_body(p, list), "contents"@), 0), "parts"@),
                    0,
                ),
                "text"@,
            ),
        ) == Some(joined(spoken(list), "\n\n"@)),
{
    lemma_names_differ();
    let none: Seq<(Seq<char>, JsonModel)> = seq![];
    let prompt = JsonModel::Text(joined(spoken(list), "\n\n"@));
    let part = JsonModel::Object(seq![("text"@, prompt)]);
    assert(seq![("text"@, prompt)] =~= none.push(("text"@, prompt)));
    lemma_added_member(none, "text"@, prompt, "text"@);
    let role = JsonModel::Text("user"@);
    let parts = JsonModel::Array(seq![part]);
    let a = none.push(("role"@, role));
    assert(a.push(("parts"@, parts)) =~= seq![("role"@, role), ("parts"@, parts)]);
    lemma_added_member(none, "role"@, role, "parts"@);
    lemma_added_member(a, "parts"@, parts, "parts"@);
    let content = JsonModel::Object(seq![("role"@, role), ("parts"@, parts)]);
    let contents = JsonModel::Array(seq![content]);
    let settings = JsonModel::Object(
        extended(
            seq![("temperature"@, JsonModel::Number("0.2"@))],
            "stopSequences"@,
            stop_value(p.stops),
        ),
    );
    let b = none.push(("contents"@, contents));
    assert(b.push(("generationConfig"@, settings)) =~= seq![
        ("contents"@, contents),
        ("generationConfig"@, settings),
    ]);
    lemma_added_member(none, "contents"@, contents, "contents"@);
    lemma_added_member(b, "generationConfig"@, settings, "contents"@);
}

/// A streamed reply is asked for wherever one is wanted, and nowhere else.
pub proof fn law_streams_are_asked_for(p: Provider, list: Seq<Turn>, stream: bool)
    requires
        p.kind != ProviderKind::Gemini,
    ensures
        at_key(call_of(p, list, stream).body, "stream"@) == JsonModel::Bool(true) <==> stream,
{
    lemma_openai_body(p, list, stream);
    lemma_anthropic_body(p, list, stream);
    lemma_ollama_body(p, list, stream);
}

/// Stop sequences go with the request, under the name that the provider has for them, and
/// without any nothing is said of them.
pub proof fn law_stops_are_carried(p: Provider, list: Seq<Turn>, stream: bool)
    requires
        p.kind != ProviderKind::Gemini,
    ensures
        ({
            let body = call_of(p, list, stream).body;
            let stops = value_or_null(stop_value(p.stops));
            match p.kind {
                ProviderKind::Anthropic => at_key(body, "stop_sequences"@) == stops,
                ProviderKind::Ollama => at_key(at_key(body, "options"@), "stop"@) == stops,
                _ => at_key(body, "stop"@) == stops,
            }
        }),
{
    lemma_openai_body(p, list, stream);
    lemma_anthropic_body(p, list, stream);
    lemma_ollama_body(p, list, stream);
}

/// Ollama is asked not to think where thinking is off, to think where it is on, and left
/// to decide where it is automatic.
pub proof fn law_ollama_is_told_whether_to_think(p: Provider, list: Seq<Turn>, stream: bool)
    requires
        p.kind == ProviderKind::Ollama,
    ensures
        p.think == ThinkMode::Off ==> at_key(call_of(p, list, stream).body, "think"@)
            == JsonModel::Bool(false),
        p.think == ThinkMode::On ==> at_key(call_of(p, list, stream).body, "think"@)
            == JsonModel::Bool(true),
        p.think == ThinkMode::Auto ==> at_key(call_of(p, list, stream).body, "think"@)
            == JsonModel::Null,
{
    lemma_ollama_body(p, list, stream);
}

// ---------------------------------------------------------------------------
// Laws on the members of requests
// ---------------------------------------------------------------------------

proof fn lemma_turn_members(role: Seq<char>, content: Seq<char>)
    ensures
        at_key(turn_value(role, content), "role"@) == JsonModel::Text(role),
        at_key(turn_value(role, content), "content"@) == JsonModel::Text(content),
{
    reveal_strlit("role");
    reveal_strlit("content");
    assert("role"@.len() != "content"@.len());
    let none: Seq<(Seq<char>, JsonModel)> = seq![];
    let a = none.push(("role"@, JsonModel::Text(role)));
    assert(a.push(("content"@, JsonModel::Text(content))) =~= turn_value(role, content)->Object_0);
    lemma_added_member(none, "role"@, JsonModel::Text(role), "role"@);
    lemma_added_member(none, "role"@, JsonModel::Text(role), "content"@);
    lemma_added_member(a, "content"@, JsonModel::Text(content), "role"@);
    lemma_added_member(a, "content"@, JsonModel::Text(content), "content"@);
}

/// Every provider that takes a conversation turn by turn gets as many turns as there are, each
/// in its place, whole and under the name of its role.
pub proof fn law_turns_are_carried_whole(p: Provider, list: Seq<Turn>, stream: bool)
    requires
        p.kind != ProviderKind::Gemini,
        p.kind != ProviderKind::Anthropic,
    ensures
        at_key(call_of(p, list, stream).body, "messages"@) matches JsonModel::Array(items)
            && items.len() == list.len(),
        forall|i: int|
            #![trigger list[i]]
            0 <= i < list.len() ==> {
                let item = at_index(at_key(call_of(p, list, stream).body, "messages"@), i);
                &&& at_key(item, "content"@) == JsonModel::Text(list[i].content)
                &&& list[i].role == Role::System ==> at_key(item, "role"@) == JsonModel::Text(
                    "system"@,
                )
                &&& list[i].role == Role::User ==> at_key(item, "role"@) == JsonModel::Text(
                    "user"@,
                )
                &&& list[i].role == Role::Assistant ==> at_key(item, "role"@) == JsonModel::Text(
                    "assistant"@,
                )
            },
{
    lemma_openai_body(p, list, stream);
    lemma_ollama_body(p, list, stream);
    assert forall|i: int| #![trigger list[i]] 0 <= i < list.len() implies {
        let item = at_index(at_key(call_of(p, list, stream).body, "messages"@), i);
        &&& at_key(item, "content"@) == JsonModel::Text(list[i].content)
        &&& list[i].role == Role::System ==> at_key(item, "role"@) == JsonModel::Text("system"@)
        &&& list[i].role == Role::User ==> at_key(item, "role"@) == JsonModel::Text("user"@)
        &&& list[i].role == Role::Assistant ==> at_key(item, "role"@) == JsonModel::Text(
            "assistant"@,
        )
    } by {
        lemma_turn_members(role_word(list[i].role), list[i].content);
    }
}

proof fn lemma_chat_turns(list: Seq<Turn>, is_chat: spec_fn(Turn) -> bool)
    requires
        forall|t: Turn| #[trigger] is_chat(t) == (t.role != Role::System),
    ensures
        chat_turns(list) == list.filter(is_chat),
    decreases list.len(),
{
    reveal(Seq::filter);
    if list.len() > 0 {
        lemma_chat_turns(list.drop_last(), is_chat);
        assert(is_chat(list.last()) == (list.last().role != Role::System));
    }
}

/// Anthropic gets as many turns as there are besides the system's, each in its place, whole
/// and under the name of its role.
pub proof fn law_anthropic_gets_the_chat(
    p: Provider,
    list: Seq<Turn>,
    stream: bool,
    is_chat: spec_fn(Turn) -> bool,
)
    requires
        p.kind == ProviderKind::Anthropic,
        forall|t: Turn| #[trigger] is_chat(t) == (t.role != Role::System),
    ensures
        at_key(call_of(p, list, stream).body, "messages"@) matches JsonModel::Array(items)
            && items.len() == list.filter(is_chat).len(),
        forall|i: int|
            #![trigger list.filter(is_chat)[i]]
            0 <= i < list.filter(is_chat).len() ==> {
                let turn = list.filter(is_chat)[i];
                let item = at_index(at_key(call_of(p, list, stream).body, "messages"@), i);
                &&& at_key(item, "content"@) == JsonModel::Text(turn.content)
                &&& turn.role == Role::User ==> at_key(item, "role"@) == JsonModel::Text("user"@)
                &&& turn.role == Role::Assistant ==> at_key(item, "role"@) == JsonModel::Text(
                    "assistant"@,
                )
            },
{
    lemma_anthropic_body(p, list, stream);
    lemma_chat_turns(list, is_chat);
    let chat = list.filter(is_chat);
    assert forall|i: int| #![trigger chat[i]] 0 <= i < chat.len() implies {
        let item = at_index(at_key(call_of(p, list, stream).body, "messages"@), i);
        &&& at_key(item, "content"@) == JsonModel::Text(chat[i].content)
        &&& chat[i].role == Role::User ==> at_key(item, "role"@) == JsonModel::Text("user"@)
        &&& chat[i].role == Role::Assistant ==> at_key(item, "role"@) == JsonModel::Text(
            "assistant"@,
        )
    } by {
        lemma_turn_members(role_word(chat[i].role), chat[i].content);
    }
}

/// Anthropic is told what the system turns say, apart from the turns: with one system turn
/// that text, and with one more the text of those before, an empty line and its own.
pub proof fn law_anthropic_is_told_the_system(
    p: Provider,
    list: Seq<Turn>,
    turn: Turn,
    stream: bool,
)
    requires
        p.kind == ProviderKind::Anthropic,
        turn.role == Role::System,
    ensures
        ({
            let before = at_key(call_of(p, list, stream).body, "system"@);
            let after = at_key(call_of(p, list.push(turn), stream).body, "system"@);
            &&& (forall|i: int| 0 <= i < list.len() ==> (#[trigger] list[i]).role != Role::System)
                ==> after == JsonModel::Text(turn.content)
            &&& (exists|i: int|
                0 <= i < list.len() && (#[trigger] list[i]).role == Role::System) ==> before is Text
                && after == JsonModel::Text(before->Text_0 + "\n\n"@ + turn.content)
        }),
        forall|other: Turn|
            other.role != Role::System ==> at_key(
                call_of(p, #[trigger] list.push(other), stream).body,
                "system"@,
            ) == at_key(call_of(p, list, stream).body, "system"@),
{
    lemma_anthropic_body(p, list, stream);
    lemma_anthropic_body(p, list.push(turn), stream);
    lemma_some_system(list);
    let texts = system_texts(list);
    assert(list.push(turn).drop_last() =~= list);
    assert(system_texts(list.push(turn)) == texts.push(turn.content));
    assert(texts.push(turn.content).drop_last() =~= texts);
    assert forall|other: Turn| other.role != Role::System implies at_key(
        call_of(p, #[trigger] list.push(other), stream).body,
        "system"@,
    ) == at_key(call_of(p, list, stream).body, "system"@) by {
        lemma_anthropic_body(p, list.push(other), stream);
        assert(list.push(other).drop_last() =~= list);
    }
}

proof fn lemma_some_system(list: Seq<Turn>)
    ensures
        system_texts(list).len() > 0 <==> exists|i: int|
            0 <= i < list.len() && (#[trigger] list[i]).role == Role::System,
    decreases list.len(),
{
    if list.len() > 0 {
        let rest = list.drop_last();
        lemma_some_system(rest);
        if list.last().role == Role::System {
            assert(list[list.len() - 1].role == Role::System);
        } else if exists|i: int| 0 <= i < list.len() && (#[trigger] list[i]).role == Role::System {
            let i = choose|i: int| 0 <= i < list.len() && (#[trigger] list[i]).role == Role::System;
            assert(rest[i].role == Role::System);
        } else {
            assert forall|i: int| 0 <= i < rest.len() implies (#[trigger] rest[i]).role
                != Role::System by {
                assert(list[i].role != Role::System);
            }
        }
    }
}

/// Each turn more adds the name of its role and its whole content to the prompt for Gemini,
/// behind what the turns before it say.
pub proof fn law_gemini_is_told_every_turn(p: Provider, list: Seq<Turn>, turn: Turn)
    ensures
        ({
            let said = |turns: Seq<Turn>|
                as_text(
                    at_key(
                        at_index(
                            at_key(
                                at_index(at_key(gemini_body(p, turns), "contents"@), 0),
                                "parts"@,
                            ),
                            0,
                        ),
                        "text"@,
                    ),
                );
            let own = (match turn.role {
                Role::System => "system: "@,
                Role::User => "user: "@,
                Role::Assistant => "assistant: "@,
            }) + turn.content;
            &&& said(seq![turn]) == Some(own)
            &&& list.len() > 0 ==> said(list) is Some && said(list.push(turn)) == Some(
                said(list)->0 + "\n\n"@ + own,
            )
        }),
{
    law_gemini_takes_one_text(p, seq![turn]);
    law_gemini_takes_one_text(p, list);
    law_gemini_takes_one_text(p, list.push(turn));
    reveal_strlit("system");
    reveal_strlit("user");
    reveal_strlit("assistant");
    reveal_strlit(": ");
    reveal_strlit("system: ");
    reveal_strlit("user: ");
    reveal_strlit("assistant: ");
    let own = (match turn.role {
        Role::System => "system: "@,
        Role::User => "user: "@,
        Role::Assistant => "assistant: "@,
    }) + turn.content;
    assert(role_word(turn.role) + ": "@ + turn.content =~= own);
    assert(spoken(seq![turn]) =~= seq![own]);
    assert(spoken(list.push(turn)) =~= spoken(list).push(own));
    assert(spoken(list).push(own).drop_last() =~= spoken(list));
}

/// A request goes to the provider that the settings name, with its key: an OpenAI-compatible
/// provider gets it as a bearer token, Anthropic under `x-api-key`, and Ollama gets none.
pub proof fn law_requests_go_to_their_provider(
    p: Provider,
    list: Seq<Turn>,
    stream: bool,
    key: Seq<char>,
)
    requires
        p.key == Some(key),
    ensures
        ({
            let call = call_of(p, list, stream);
            match p.kind {
                ProviderKind::Openai | ProviderKind::CustomOpenai | ProviderKind::Openrouter => {
                    &&& call.url == p.url
                    &&& call.bearer == Some(key)
                    &&& p.kind != ProviderKind::Openrouter ==> call.headers.len() == 0
                    &&& p.kind == ProviderKind::Openrouter ==> call.headers =~= seq![
                        ("HTTP-Referer"@, "https://localhost"@),
                        ("X-Title"@, "coding-agent-rs"@),
                    ]
                },
                ProviderKind::Anthropic => {
                    &&& call.url == p.url
                    &&& call.bearer is None
                    &&& call.headers.contains(("x-api-key"@, key))
                    &&& call.headers.contains(("anthropic-version"@, "2023-06-01"@))
                    &&& call.headers.len() == 2
                },
                ProviderKind::Gemini => call.bearer is None && call.headers.len() == 0
                    && crate::text::ends(call.url, key),
                ProviderKind::Ollama => call.url == p.url && call.bearer is None
                    && call.headers.len() == 0,
            }
        }),
{
    let call = call_of(p, list, stream);
    if p.kind == ProviderKind::Anthropic {
        assert(call.headers[0] == ("x-api-key"@, key));
        assert(call.headers[1] == ("anthropic-version"@, "2023-06-01"@));
    }
    if p.kind == ProviderKind::Gemini {
        assert(call.url.subrange(call.url.len() - key.len(), call.url.len() as int) =~= key);
    }
}

/// A request to Gemini goes to the model's place below the base address, whether that ends in
/// slashes or not.
pub proof fn law_gemini_requests_name_the_model(
    p: Provider,
    list: Seq<Turn>,
    key: Seq<char>,
    base: Seq<char>,
    slashes: nat,
)
    requires
        p.kind == ProviderKind::Gemini,
        p.key == Some(key),
        base.len() > 0,
        base.last() != '/',
        p.url == base + Seq::new(slashes, |i: int| '/'),
    ensures
        call_of(p, list, false).url == base + "/models/"@ + p.model + ":generateContent?key="@ + key,
        call_of(p, list, true).url == base + "/models/"@ + p.model
            + ":streamGenerateContent?alt=sse&key="@ + key,
{
    crate::text::lemma_trim_end_is(p.url, CharClass::Is('/'), base.len() as int);
    assert(p.url.take(base.len() as int) =~= base);
}

/// Stop sequences go with the request one by one and in order, under the name that the
/// provider has for them.
pub proof fn law_each_stop_is_carried(p: Provider, list: Seq<Turn>, stream: bool)
    requires
        p.stops.len() > 0,
    ensures
        ({
            let body = call_of(p, list, stream).body;
            let stops = match p.kind {
                ProviderKind::Anthropic => at_key(body, "stop_sequences"@),
                ProviderKind::Ollama => at_key(at_key(body, "options"@), "stop"@),
                ProviderKind::Gemini => at_key(
                    at_key(body, "generationConfig"@),
                    "stopSequences"@,
                ),
                _ => at_key(body, "stop"@),
            };
            &&& stops matches JsonModel::Array(items) && items.len() == p.stops.len()
            &&& forall|i: int|
                0 <= i < p.stops.len() ==> at_index(stops, i) == JsonModel::Text(
                    #[trigger] p.stops[i],
                )
        }),
{
    lemma_openai_body(p, list, stream);
    lemma_anthropic_body(p, list, stream);
    lemma_ollama_body(p, list, stream);
    lemma_gemini_settings(p, list);
}

proof fn lemma_gemini_settings(p: Provider, list: Seq<Turn>)
    ensures
        at_key(at_key(gemini_body(p, list), "generationConfig"@), "stopSequences"@)
            == value_or_null(stop_value(p.stops)),
        at_key(at_key(gemini_body(p, list), "generationConfig"@), "temperature"@)
            == JsonModel::Number("0.2"@),
        at_key(at_index(at_key(gemini_body(p, list), "contents"@), 0), "role"@)
            == JsonModel::Text("user"@),
{
    lemma_names_differ();
    let none: Seq<(Seq<char>, JsonModel)> = seq![];
    let warm = JsonModel::Number("0.2"@);
    let a = none.push(("temperature"@, warm));
    assert(a =~= seq![("temperature"@, warm)]);
    let members = extended(a, "stopSequences"@, stop_value(p.stops));
    lemma_added_member(none, "temperature"@, warm, "stopSequences"@);
    lemma_added_member(none, "temperature"@, warm, "temperature"@);
    lemma_added_member(a, "stopSequences"@, text_list(p.stops), "stopSequences"@);
    lemma_added_member(a, "stopSequences"@, text_list(p.stops), "temperature"@);
    let settings = JsonModel::Object(members);
    let prompt = joined(spoken(list), "\n\n"@);
    let part = JsonModel::Object(seq![("text"@, JsonModel::Text(prompt))]);
    let role = JsonModel::Text("user"@);
    let parts = JsonModel::Array(seq![part]);
    let c = none.push(("role"@, role));
    assert(c.push(("parts"@, parts)) =~= seq![("role"@, role), ("parts"@, parts)]);
    lemma_added_member(none, "role"@, role, "role"@);
    lemma_added_member(c, "parts"@, parts, "role"@);
    let content = JsonModel::Object(seq![("role"@, role), ("parts"@, parts)]);
    let contents = JsonModel::Array(seq![content]);
    let b = none.push(("contents"@, contents));
    assert(b.push(("generationConfig"@, settings)) =~= seq![
        ("contents"@, contents),
        ("generationConfig"@, settings),
    ]);
    lemma_added_member(none, "contents"@, contents, "contents"@);
    lemma_added_member(none, "contents"@, contents, "generationConfig"@);
    lemma_added_member(b, "generationConfig"@, settings, "contents"@);
    lemma_added_member(b, "generationConfig"@, settings, "generationConfig"@);
}

/// Without stop sequences a request says nothing of any.
pub proof fn law_no_stops_are_made_up(p: Provider, list: Seq<Turn>, stream: bool)
    requires
        p.stops.len() == 0,
    ensures
        ({
            let body = call_of(p, list, stream).body;
            match p.kind {
                ProviderKind::Anthropic => at_key(body, "stop_sequences"@) is Null,
                ProviderKind::Ollama => at_key(at_key(body, "options"@), "stop"@) is Null,
                ProviderKind::Gemini => at_key(
                    at_key(body, "generationConfig"@),
                    "stopSequences"@,
                ) is Null,
                _ => at_key(body, "stop"@) is Null,
            }
        }),
{
    lemma_openai_body(p, list, stream);
    lemma_anthropic_body(p, list, stream);
    lemma_ollama_body(p, list, stream);
    lemma_gemini_settings(p, list);
}

/// Ollama is asked to think a little, some or much where the settings say so.
pub proof fn law_ollama_is_told_how_much_to_think(p: Provider, list: Seq<Turn>, stream: bool)
    requires
        p.kind == ProviderKind::Ollama,
    ensures
        p.think == ThinkMode::Low ==> at_key(call_of(p, list, stream).body, "think"@)
            == JsonModel::Text("low"@),
        p.think == ThinkMode::Medium ==> at_key(call_of(p, list, stream).body, "think"@)
            == JsonModel::Text("medium"@),
        p.think == ThinkMode::High ==> at_key(call_of(p, list, stream).body, "think"@)
            == JsonModel::Text("high"@),
{
    lemma_ollama_body(p, list, stream);
}

/// A client is made of the settings' own provider, address, model, key, thinking and stop
/// sequences.
pub proof fn law_clients_follow_their_settings(c: Config, i: int)
    requires
        c.base_url is Some,
        c.model is Some,
    ensures
        provider_of(c).kind == c.provider,
        provider_of(c).url == c.base_url->0@,
        provider_of(c).model == c.model->0@,
        provider_of(c).key is Some <==> c.api_key is Some,
        c.api_key is Some ==> provider_of(c).key == Some(c.api_key->0@),
        provider_of(c).think == c.think,
        provider_of(c).stops.len() == c.stop_sequences@.len(),
        0 <= i < c.stop_sequences@.len() ==> provider_of(c).stops[i] == c.stop_sequences@[i]@,
{
}

// ---------------------------------------------------------------------------
// Laws on replies
// ---------------------------------------------------------------------------

/// An event from Anthropic that is no end of the message brings exactly the text of its delta,
/// and nothing where the delta has no text; the end of the message brings nothing and ends the
/// reply.
pub proof fn law_anthropic_events_bring_their_text(value: JsonModel)
    ensures
        ({
            let kind = as_text(at_key(value, "type"@));
            let said = as_text(at_key(at_key(value, "delta"@), "text"@));
            let b = brought(ProviderKind::Anthropic, value);
            &&& kind != Some("message_stop"@) && said is Some ==> b.pieces =~= seq![
                Piece::Content(said->0),
            ]
            &&& kind != Some("message_stop"@) && said is None ==> b.pieces.len() == 0
            &&& kind == Some("message_stop"@) ==> b.pieces.len() == 0
            &&& b.done <==> kind == Some("message_stop"@)
        }),
{
}

/// An event from an OpenAI-compatible provider brings exactly the content of the delta of its
/// first choice, and nothing where that has none; no event ends the reply.
pub proof fn law_openai_events_bring_their_content(kind: ProviderKind, value: JsonModel)
    requires
        kind == ProviderKind::Openai || kind == ProviderKind::Openrouter || kind
            == ProviderKind::CustomOpenai,
    ensures
        ({
            let said = as_text(
                at_key(at_key(at_index(at_key(value, "choices"@), 0), "delta"@), "content"@),
            );
            let b = brought(kind, value);
            &&& said is Some ==> b.pieces =~= seq![Piece::Content(said->0)]
            &&& said is None ==> b.pieces.len() == 0
            &&& !b.done
        }),
{
}

/// An event from Ollama brings the content of its message and then its thinking, as far as
/// they are there, and ends the reply where it says that it is done.
pub proof fn law_ollama_events_bring_content_and_thinking(value: JsonModel)
    ensures
        ({
            let said = as_text(at_key(at_key(value, "message"@), "content"@));
            let thought = as_text(at_key(at_key(value, "message"@), "thinking"@));
            let b = brought(ProviderKind::Ollama, value);
            &&& said is Some && thought is Some ==> b.pieces =~= seq![
                Piece::Content(said->0),
                Piece::Thinking(thought->0),
            ]
            &&& said is Some && thought is None ==> b.pieces =~= seq![Piece::Content(said->0)]
            &&& said is None && thought is Some ==> b.pieces =~= seq![Piece::Thinking(thought->0)]
            &&& said is None && thought is None ==> b.pieces.len() == 0
            &&& b.done <==> at_key(value, "done"@) == JsonModel::Bool(true)
        }),
{
}

/// An event from Gemini brings the text of each part of its first candidate, in order: a part
/// with a text adds exactly that text as one piece, a part without one adds nothing.
pub proof fn law_gemini_events_bring_their_parts(
    value: JsonModel,
    parts: Seq<JsonModel>,
    shorter: JsonModel,
    part: JsonModel,
)
    requires
        at_key(at_key(at_index(at_key(value, "candidates"@), 0), "content"@), "parts"@)
            == JsonModel::Array(parts.push(part)),
        at_key(at_key(at_index(at_key(shorter, "candidates"@), 0), "content"@), "parts"@)
            == JsonModel::Array(parts),
    ensures
        ({
            let had = brought(ProviderKind::Gemini, shorter).pieces;
            let has = brought(ProviderKind::Gemini, value).pieces;
            &&& parts.len() == 0 ==> had.len() == 0
            &&& as_text(at_key(part, "text"@)) is Some ==> has =~= had.push(
                Piece::Content(as_text(at_key(part, "text"@))->0),
            )
            &&& as_text(at_key(part, "text"@)) is None ==> has =~= had
        }),
        !brought(ProviderKind::Gemini, value).done,
{
    assert(parts.push(part).drop_last() =~= parts);
}

/// An event from Gemini whose first candidate has no list of parts brings nothing.
pub proof fn law_gemini_events_without_parts_are_empty(value: JsonModel)
    requires
        !(at_key(at_key(at_index(at_key(value, "candidates"@), 0), "content"@), "parts"@) is Array),
    ensures
        brought(ProviderKind::Gemini, value).pieces.len() == 0,
        !brought(ProviderKind::Gemini, value).done,
{
}

/// The answer of an OpenAI-compatible provider is the content of the message of its first
/// choice, that of Ollama the content of its message, and there is none where that is no text.
pub proof fn law_answers_are_the_messages(kind: ProviderKind, value: JsonModel, t: Seq<char>)
    ensures
        kind == ProviderKind::Openai || kind == ProviderKind::Openrouter || kind
            == ProviderKind::CustomOpenai ==> (answer_in(kind, value) == Some(t) <==> at_key(
            at_key(at_index(at_key(value, "choices"@), 0), "message"@),
            "content"@,
        ) == JsonModel::Text(t)),
        kind == ProviderKind::Ollama ==> (answer_in(kind, value) == Some(t) <==> at_key(
            at_key(value, "message"@),
            "content"@,
        ) == JsonModel::Text(t)),
{
}

/// The answer of Anthropic and of Gemini is the texts of the parts of the reply, one behind the
/// other: a part with a text adds exactly that text to the answer, a part without one adds
/// nothing, and where they say nothing there is no answer.
pub proof fn law_answers_are_the_parts(
    kind: ProviderKind,
    shorter: JsonModel,
    value: JsonModel,
    parts: Seq<JsonModel>,
    part: JsonModel,
)
    requires
        kind == ProviderKind::Anthropic && at_key(value, "content"@) == JsonModel::Array(
            parts.push(part),
        ) && at_key(shorter, "content"@) == JsonModel::Array(parts) || kind == ProviderKind::Gemini
            && at_key(at_key(at_index(at_key(value, "candidates"@), 0), "content"@), "parts"@)
            == JsonModel::Array(parts.push(part)) && at_key(
            at_key(at_index(at_key(shorter, "candidates"@), 0), "content"@),
            "parts"@,
        ) == JsonModel::Array(parts),
    ensures
        ({
            let had = answer_in(kind, shorter);
            let has = answer_in(kind, value);
            let said = as_text(at_key(part, "text"@));
            &&& parts.len() == 0 ==> had is None
            &&& said is None ==> has == had
            &&& said is Some && said->0.len() == 0 ==> has == had
            &&& said is Some && said->0.len() > 0 && had is None ==> has == said
            &&& said is Some && said->0.len() > 0 && had is Some ==> has == Some(had->0 + said->0)
        }),
{
    assert(parts.push(part).drop_last() =~= parts);
    let texts = part_texts(parts);
    reveal_strlit("");
    if let Some(t) = as_text(at_key(part, "text"@)) {
        assert(texts.push(t).drop_last() =~= texts);
        if texts.len() == 0 {
            assert(joined(texts.push(t), ""@) =~= t);
        } else {
            assert(joined(texts.push(t), ""@) =~= joined(texts, ""@) + t);
        }
        assert(t.len() == 0 ==> joined(texts, ""@) + t =~= joined(texts, ""@));
        assert(joined(texts, ""@).len() == 0 ==> joined(texts, ""@) + t =~= t);
    }
}

proof fn lemma_data_line(kind: ProviderKind, data: Seq<char>)
    requires
        kind != ProviderKind::Ollama,
    ensures
        crate::text::without_prefix("data:"@ + data, "data:"@) == Some(data),
{
    let line = "data:"@ + data;
    assert(line.subrange(0, "data:"@.len() as int) =~= "data:"@);
    assert(line.skip("data:"@.len() as int) =~= data);
}

/// A line that holds an event from Anthropic adds exactly the text of the event's delta to the
/// answer.
pub proof fn law_anthropic_lines_add_their_text(
    m: Reply,
    data: Seq<char>,
    value: JsonModel,
    t: Seq<char>,
)
    requires
        m.kind == ProviderKind::Anthropic,
        json_read(trimmed(data)) == Ok::<JsonModel, Seq<char>>(value),
        trimmed(data).len() > 0,
        trimmed(data) != "[DONE]"@,
        as_text(at_key(value, "type"@)) != Some("message_stop"@),
        as_text(at_key(at_key(value, "delta"@), "text"@)) == Some(t),
    ensures
        heard(m, "data:"@ + data).answer == m.answer + t,
        heard(m, "data:"@ + data).pieces == m.pieces.push(Piece::Content(t)),
        heard(m, "data:"@ + data).status == m.status,
        heard(m, "data:"@ + data).buffered == m.buffered,
{
    lemma_data_line(m.kind, data);
    law_anthropic_events_bring_their_text(value);
    let b = brought(m.kind, value);
    lemma_one_content(b.pieces, t);
    assert(m.pieces + b.pieces =~= m.pieces.push(Piece::Content(t)));
}

proof fn lemma_one_content(pieces: Seq<Piece>, t: Seq<char>)
    requires
        pieces =~= seq![Piece::Content(t)],
    ensures
        content_of(pieces) == t,
{
    assert(pieces.drop_last() =~= seq![]);
    assert(content_of(pieces.drop_last()) =~= seq![]);
    assert(content_of(pieces) =~= t);
}

/// A line that holds an event from an OpenAI-compatible provider adds exactly the content of
/// the delta of its first choice to the answer.
pub proof fn law_openai_lines_add_their_content(
    m: Reply,
    data: Seq<char>,
    value: JsonModel,
    t: Seq<char>,
)
    requires
        m.kind == ProviderKind::Openai || m.kind == ProviderKind::Openrouter || m.kind
            == ProviderKind::CustomOpenai,
        json_read(trimmed(data)) == Ok::<JsonModel, Seq<char>>(value),
        trimmed(data).len() > 0,
        trimmed(data) != "[DONE]"@,
        as_text(at_key(at_key(at_index(at_key(value, "choices"@), 0), "delta"@), "content"@))
            == Some(t),
    ensures
        heard(m, "data:"@ + data).answer == m.answer + t,
        heard(m, "data:"@ + data).pieces == m.pieces.push(Piece::Content(t)),
        heard(m, "data:"@ + data).status == m.status,
        heard(m, "data:"@ + data).buffered == m.buffered,
{
    lemma_data_line(m.kind, data);
    law_openai_events_bring_their_content(m.kind, value);
    let b = brought(m.kind, value);
    lemma_one_content(b.pieces, t);
    assert(m.pieces + b.pieces =~= m.pieces.push(Piece::Content(t)));
}

/// A line from Ollama adds exactly the content of its message to the answer; its thinking is
/// handed out behind it and is no part of the answer.
pub proof fn law_ollama_lines_add_their_content(
    m: Reply,
    line: Seq<char>,
    value: JsonModel,
    t: Seq<char>,
)
    requires
        m.kind == ProviderKind::Ollama,
        json_read(line) == Ok::<JsonModel, Seq<char>>(value),
        trimmed(line).len() > 0,
        as_text(at_key(at_key(value, "message"@), "content"@)) == Some(t),
    ensures
        heard(m, line).answer == m.answer + t,
        as_text(at_key(at_key(value, "message"@), "thinking"@)) is None ==> heard(m, line).pieces
            == m.pieces.push(Piece::Content(t)),
        as_text(at_key(at_key(value, "message"@), "thinking"@)) matches Some(thought) ==> heard(
            m,
            line,
        ).pieces == m.pieces.push(Piece::Content(t)).push(Piece::Thinking(thought)),
        at_key(value, "done"@) == JsonModel::Bool(true) ==> heard(m, line).status
            == Standing::Done,
        at_key(value, "done"@) != JsonModel::Bool(true) ==> heard(m, line).status == m.status,
        heard(m, line).buffered == m.buffered,
{
    law_ollama_events_bring_content_and_thinking(value);
    let b = brought(m.kind, value);
    let content = seq![Piece::Content(t)];
    lemma_one_content(content, t);
    match as_text(at_key(at_key(value, "message"@), "thinking"@)) {
        Some(thought) => {
            assert(b.pieces.drop_last() =~= content);
            assert(b.pieces.last() == Piece::Thinking(thought));
            assert(m.pieces + b.pieces =~= m.pieces.push(Piece::Content(t)).push(
                Piece::Thinking(thought),
            ));
        },
        None => {
            assert(b.pieces =~= content);
            assert(m.pieces + b.pieces =~= m.pieces.push(Piece::Content(t)));
        },
    }
}

/// A line from Gemini adds the text of each part of the first candidate to the answer, in
/// order.
pub proof fn law_gemini_lines_add_their_parts(
    m: Reply,
    data: Seq<char>,
    value: JsonModel,
    parts: Seq<JsonModel>,
    said: Seq<Seq<char>>,
)
    requires
        m.kind == ProviderKind::Gemini,
        json_read(trimmed(data)) == Ok::<JsonModel, Seq<char>>(value),
        trimmed(data).len() > 0,
        at_key(at_key(at_index(at_key(value, "candidates"@), 0), "content"@), "parts"@)
            == JsonModel::Array(parts),
        said.len() == parts.len(),
        forall|i: int|
            0 <= i < parts.len() ==> as_text(at_key(#[trigger] parts[i], "text"@)) == Some(
                said[i],
            ),
    ensures
        heard(m, "data:"@ + data).answer == m.answer + said.fold_left(
            Seq::<char>::empty(),
            |all: Seq<char>, t: Seq<char>| all + t,
        ),
        heard(m, "data:"@ + data).pieces.len() == m.pieces.len() + said.len(),
        forall|i: int|
            0 <= i < said.len() ==> heard(m, "data:"@ + data).pieces[m.pieces.len() + i]
                == Piece::Content(#[trigger] said[i]),
        heard(m, "data:"@ + data).status == m.status,
{
    lemma_data_line(m.kind, data);
    lemma_said_parts(parts, said);
    assert(!(m.kind == ProviderKind::Anthropic));
    let f = |all: Seq<char>, t: Seq<char>| all + t;
    let b = brought(m.kind, value);
    assert(b.pieces =~= said.map_values(|t: Seq<char>| Piece::Content(t)));
    lemma_content_of_said(b.pieces, said, f);
}

proof fn lemma_said_parts(parts: Seq<JsonModel>, said: Seq<Seq<char>>)
    requires
        said.len() == parts.len(),
        forall|i: int|
            0 <= i < parts.len() ==> as_text(at_key(#[trigger] parts[i], "text"@)) == Some(
                said[i],
            ),
    ensures
        part_texts(parts) == said,
    decreases parts.len(),
{
    if parts.len() > 0 {
        let rest = parts.drop_last();
        assert forall|i: int| 0 <= i < rest.len() implies as_text(at_key(#[trigger] rest[i], "text"@))
            == Some(said.drop_last()[i]) by {
            assert(rest[i] == parts[i]);
        }
        lemma_said_parts(rest, said.drop_last());
        assert(parts[parts.len() - 1] == parts.last());
        assert(said.drop_last().push(said.last()) =~= said);
    } else {
        assert(said =~= seq![]);
    }
}

proof fn lemma_content_of_said(
    pieces: Seq<Piece>,
    said: Seq<Seq<char>>,
    f: spec_fn(Seq<char>, Seq<char>) -> Seq<char>,
)
    requires
        forall|a: Seq<char>, t: Seq<char>| #[trigger] f(a, t) == a + t,
        pieces.len() == said.len(),
        forall|i: int| 0 <= i < said.len() ==> #[trigger] pieces[i] == Piece::Content(said[i]),
    ensures
        content_of(pieces) == said.fold_left(Seq::<char>::empty(), f),
    decreases pieces.len(),
{
    if pieces.len() > 0 {
        assert forall|i: int| 0 <= i < said.drop_last().len() implies #[trigger] pieces.drop_last()[i]
            == Piece::Content(said.drop_last()[i]) by {
            assert(pieces[i] == Piece::Content(said[i]));
        }
        lemma_content_of_said(pieces.drop_last(), said.drop_last(), f);
        assert(pieces[pieces.len() - 1] == Piece::Content(said.last()));
    }
}

/// A line without an event changes nothing: for Ollama a blank one, for the others one that
/// does not begin with `data:` or has nothing behind it.
pub proof fn law_other_lines_say_nothing(m: Reply, line: Seq<char>)
    requires
        m.kind == ProviderKind::Ollama && trimmed(line).len() == 0 || m.kind
            != ProviderKind::Ollama && !crate::text::begins(line, "data:"@) || m.kind
            != ProviderKind::Ollama && (exists|data: Seq<char>|
            trimmed(data).len() == 0 && line == #[trigger] ("data:"@ + data)) || m.kind
            == ProviderKind::Anthropic && (exists|data: Seq<char>|
            trimmed(data) == "[DONE]"@ && line == #[trigger] ("data:"@ + data)),
    ensures
        heard(m, line) == m,
{
    reveal_strlit("[DONE]");
    if m.kind != ProviderKind::Ollama && crate::text::begins(line, "data:"@) {
        if exists|data: Seq<char>|
            trimmed(data).len() == 0 && line == #[trigger] ("data:"@ + data) {
            let data = choose|data: Seq<char>|
                trimmed(data).len() == 0 && line == #[trigger] ("data:"@ + data);
            lemma_data_line(m.kind, data);
        } else {
            let data = choose|data: Seq<char>|
                trimmed(data) == "[DONE]"@ && line == #[trigger] ("data:"@ + data);
            lemma_data_line(m.kind, data);
        }
    }
    assert(m.answer + content_of(seq![]) =~= m.answer);
    assert(m.pieces + Seq::<Piece>::empty() =~= m.pieces);
}

/// `[DONE]` ends the reply of an OpenAI-compatible provider and adds nothing to it.
pub proof fn law_done_ends_the_reply(m: Reply, data: Seq<char>)
    requires
        m.kind == ProviderKind::Openai || m.kind == ProviderKind::Openrouter || m.kind
            == ProviderKind::CustomOpenai,
        trimmed(data) == "[DONE]"@,
    ensures
        heard(m, "data:"@ + data) == (Reply { status: Standing::Done, ..m }),
{
    lemma_data_line(m.kind, data);
    assert(m.answer + content_of(seq![]) =~= m.answer);
    assert(m.pieces + Seq::<Piece>::empty() =~= m.pieces);
}

/// An event that cannot be read ends the reply, which tells the event and what the reader said
/// of it, and leaves what was read before.
pub proof fn law_unreadable_events_are_told(m: Reply, data: Seq<char>, cause: Seq<char>)
    requires
        m.kind != ProviderKind::Ollama,
        json_read(trimmed(data)) == Err::<JsonModel, Seq<char>>(cause),
        trimmed(data).len() > 0,
        trimmed(data) != "[DONE]"@,
    ensures
        heard(m, "data:"@ + data) == (Reply {
            status: Standing::Failed(Fault { kind: m.kind, event: trimmed(data), cause }),
            ..m
        }),
{
    lemma_data_line(m.kind, data);
}

/// A line is read when its end arrives, whether that is a line feed alone or one behind a
/// carriage return.
pub proof fn law_lines_are_read_as_they_end(m: Reply, line: Seq<char>)
    requires
        m.status == Standing::Open,
        m.buffered.len() == 0,
        forall|i: int| 0 <= i < line.len() ==> #[trigger] line[i] != '\n',
        line.len() > 0 ==> line.last() != '\r',
    ensures
        fed(m, line + "\n"@) == heard(m, line),
        fed(m, line + "\r\n"@) == heard(m, line),
{
    reveal_strlit("\n");
    reveal_strlit("\r\n");
    assert(m.buffered =~= seq![]);
    lemma_line_ends(m, line, 0);
    lemma_line_ends(m, line, 1);
    assert(line + Seq::new(0, |i: int| '\r') + "\n"@ =~= line + "\n"@);
    assert(line + Seq::new(1, |i: int| '\r') + "\n"@ =~= line + "\r\n"@);
}

proof fn lemma_line_ends(m: Reply, line: Seq<char>, extra: nat)
    requires
        m.status == Standing::Open,
        m.buffered =~= seq![],
        forall|i: int| 0 <= i < line.len() ==> #[trigger] line[i] != '\n',
        line.len() > 0 ==> line.last() != '\r',
    ensures
        fed(m, line + Seq::new(extra, |i: int| '\r') + "\n"@) == heard(m, line),
{
    reveal_strlit("\n");
    let kept = line + Seq::new(extra, |i: int| '\r');
    let all = kept + "\n"@;
    let n = kept.len() as int;
    assert(m.buffered + all =~= all);
    assert(all.subrange(n, n + 1) =~= "\n"@);
    assert forall|j: int| 0 <= j < n implies !#[trigger] crate::text::occurs_at(all, "\n"@, j) by {
        assert(all.subrange(j, j + 1)[0] == kept[j]);
        assert(kept[j] != '\n');
    }
    crate::text::lemma_find_is(all, "\n"@, n);
    assert(all.take(n) =~= kept);
    assert(all.skip(n + 1) =~= m.buffered);
    crate::text::lemma_trim_end_is(kept, CharClass::Is('\r'), line.len() as int);
    assert(kept.take(line.len() as int) =~= line);
    let rest = Reply { buffered: all.skip(n + 1), ..m };
    assert(rest == m);
    let next = heard(m, line);
    lemma_find(next.buffered, "\n"@);
    assert(find(next.buffered, "\n"@) is None);
    assert(lines_read(next) == next);
}

/// What arrives of a line that has not ended waits and changes nothing else.
pub proof fn law_unended_lines_wait(m: Reply, more: Seq<char>)
    requires
        m.status == Standing::Open,
        find(m.buffered + more, "\n"@) is None,
    ensures
        fed(m, more) == (Reply { buffered: m.buffered + more, ..m }),
{
}

/// At the end of the text what is left is read as though its line had ended.
pub proof fn law_the_last_line_needs_no_end(m: Reply)
    requires
        m.status == Standing::Open,
        find(m.buffered, "\n"@) is None,
    ensures
        closed(m).answer == fed(m, "\n"@).answer,
        closed(m).pieces == fed(m, "\n"@).pieces,
        closed(m).status is Failed <==> fed(m, "\n"@).status is Failed,
        fed(m, "\n"@).status is Failed ==> closed(m).status == fed(m, "\n"@).status,
        closed(m).buffered.len() == 0,
{
    reveal_strlit("\n");
    lemma_find(m.buffered, "\n"@);
    let n = m.buffered.len() as int;
    let all = m.buffered + "\n"@;
    assert(all.subrange(n, n + 1) =~= "\n"@);
    assert forall|j: int| 0 <= j < n implies !#[trigger] crate::text::occurs_at(all, "\n"@, j) by {
        assert(!crate::text::occurs_at(m.buffered, "\n"@, j));
        assert(all.subrange(j, j + 1) =~= m.buffered.subrange(j, j + 1));
    }
    crate::text::lemma_find_is(all, "\n"@, n);
    assert(all.take(n) =~= m.buffered);
    assert(all.skip(n + 1) =~= seq![]);
    let line = trim_end(m.buffered, CharClass::Is('\r'));
    let rest = Reply { buffered: seq![], ..m };
    let next = heard(rest, line);
    lemma_find(next.buffered, "\n"@);
    assert(find(next.buffered, "\n"@) is None);
    assert(lines_read(next) == next);
    assert(fed(m, "\n"@) == next);
    if trimmed(m.buffered).len() == 0 {
        lemma_blank(m.buffered);
        crate::text::lemma_trim_end(m.buffered, CharClass::Is('\r'));
        lemma_all_white(line);
        if m.kind != ProviderKind::Ollama {
            reveal_strlit("data:");
            if crate::text::begins(line, "data:"@) {
                assert(line.subrange(0, 5)[0] == 'd');
                assert(line[0] == 'd');
            }
        }
        law_other_lines_say_nothing(rest, line);
    }
}

proof fn lemma_blank(s: Seq<char>)
    requires
        trimmed(s).len() == 0,
    ensures
        forall|i: int| 0 <= i < s.len() ==> crate::text::is_white(#[trigger] s[i]),
{
    crate::text::lemma_run_len(s, CharClass::White);
    let t = crate::text::trim_start(s, CharClass::White);
    crate::text::lemma_trim_end(t, CharClass::White);
    if t.len() > 0 {
        assert(CharClass::White.has(t[0]));
    }
    assert forall|i: int| 0 <= i < s.len() implies crate::text::is_white(#[trigger] s[i]) by {
        assert(CharClass::White.has(s[i]));
    }
}

proof fn lemma_all_white(s: Seq<char>)
    requires
        forall|i: int| 0 <= i < s.len() ==> crate::text::is_white(#[trigger] s[i]),
    ensures
        trimmed(s).len() == 0,
{
    crate::text::lemma_run_len_is(s, CharClass::White, s.len() as int);
}

/// Once a whole line with an event from Anthropic has arrived, the answer has grown by exactly
/// the text of the event's delta.
pub proof fn law_anthropic_answers_grow_by_their_text(
    m: Reply,
    data: Seq<char>,
    value: JsonModel,
    t: Seq<char>,
)
    requires
        m.kind == ProviderKind::Anthropic,
        m.status == Standing::Open,
        m.buffered.len() == 0,
        forall|i: int| 0 <= i < data.len() ==> #[trigger] data[i] != '\n',
        data.len() > 0 ==> data.last() != '\r',
        json_read(trimmed(data)) == Ok::<JsonModel, Seq<char>>(value),
        trimmed(data).len() > 0,
        trimmed(data) != "[DONE]"@,
        as_text(at_key(value, "type"@)) != Some("message_stop"@),
        as_text(at_key(at_key(value, "delta"@), "text"@)) == Some(t),
    ensures
        fed(m, "data:"@ + data + "\n"@).answer == m.answer + t,
        fed(m, "data:"@ + data + "\n"@).pieces == m.pieces.push(Piece::Content(t)),
        fed(m, "data:"@ + data + "\n"@).status == Standing::Open,
        fed(m, "data:"@ + data + "\n"@).buffered.len() == 0,
{
    reveal_strlit("data:");
    let line = "data:"@ + data;
    assert forall|i: int| 0 <= i < line.len() implies #[trigger] line[i] != '\n' by {
        if i >= 5 {
            assert(line[i] == data[i - 5]);
        }
    }
    law_lines_are_read_as_they_end(m, line);
    law_anthropic_lines_add_their_text(m, data, value, t);
}

/// A new stream has said nothing and is open.
pub proof fn law_streams_begin_empty(kind: ProviderKind)
    ensures
        silence(kind).kind == kind,
        silence(kind).answer.len() == 0,
        silence(kind).buffered.len() == 0,
        silence(kind).pieces.len() == 0,
        silence(kind).status == Standing::Open,
{
}

/// A request without a key has none to send: no bearer token, an empty header and an empty
/// parameter.
pub proof fn law_requests_without_a_key_send_none(p: Provider, list: Seq<Turn>, stream: bool)
    requires
        p.key is None,
    ensures
        ({
            let call = call_of(p, list, stream);
            match p.kind {
                ProviderKind::Anthropic => call.url == p.url && call.bearer is None
                    && call.headers =~= seq![
                    ("x-api-key"@, ""@),
                    ("anthropic-version"@, "2023-06-01"@),
                ],
                ProviderKind::Gemini => call.bearer is None && call.headers.len() == 0
                    && crate::text::ends(call.url, "key="@),
                _ => call.url == p.url && call.bearer is None,
            }
        }),
{
    let call = call_of(p, list, stream);
    reveal_strlit("");
    reveal_strlit("key=");
    reveal_strlit(":streamGenerateContent?alt=sse&key=");
    reveal_strlit(":generateContent?key=");
    if p.kind == ProviderKind::Gemini {
        assert(call.url.subrange(call.url.len() - 4, call.url.len() as int) =~= "key="@);
    }
}

/// A request says what the provider is to be told and nothing else: the model, the turns, how
/// freely or how long to answer, and whether to stream, to think and where to stop as far as
/// there is anything to say of it.
pub proof fn law_requests_say_no_more(p: Provider, list: Seq<Turn>, stream: bool)
    ensures
        ({
            let body = call_of(p, list, stream).body;
            let streaming = if stream {
                1nat
            } else {
                0
            };
            let stopping = if p.stops.len() > 0 {
                1nat
            } else {
                0
            };
            let thinking = if p.think == ThinkMode::Auto {
                0nat
            } else {
                1
            };
            &&& body is Object
            &&& match p.kind {
                ProviderKind::Openai | ProviderKind::CustomOpenai | ProviderKind::Openrouter => {
                    &&& at_key(body, "temperature"@) == JsonModel::Number("0.2"@)
                    &&& body->Object_0.len() == 3 + streaming + stopping
                },
                ProviderKind::Anthropic => {
                    &&& at_key(body, "max_tokens"@) == JsonModel::Number("4096"@)
                    &&& body->Object_0.len() == 4 + streaming + stopping
                },
                ProviderKind::Gemini => {
                    &&& at_key(at_key(body, "generationConfig"@), "temperature"@)
                        == JsonModel::Number("0.2"@)
                    &&& at_key(at_index(at_key(body, "contents"@), 0), "role"@) == JsonModel::Text(
                        "user"@,
                    )
                    &&& body->Object_0.len() == 2
                },
                ProviderKind::Ollama => {
                    &&& at_key(body, "stream"@) == JsonModel::Bool(stream)
                    &&& body->Object_0.len() == 3 + thinking + stopping
                },
            }
        }),
{
    lemma_gemini_settings(p, list);
    lemma_ollama_body(p, list, stream);
    lemma_openai_warmth(p, list, stream);
    lemma_anthropic_length(p, list, stream);
}

proof fn lemma_openai_warmth(p: Provider, list: Seq<Turn>, stream: bool)
    ensures
        at_key(openai_body(p, list, stream), "temperature"@) == JsonModel::Number("0.2"@),
{
    lemma_names_differ();
    let none: Seq<(Seq<char>, JsonModel)> = seq![];
    let key = "temperature"@;
    let a = seq![("model"@, JsonModel::Text(p.model))];
    let b = extended(a, "stream"@, flag(stream));
    let c = b.push(("messages"@, all_turns(list)));
    let d = c.push((key, JsonModel::Number("0.2"@)));
    assert(a =~= none.push(("model"@, JsonModel::Text(p.model))));
    lemma_added_member(none, "model"@, JsonModel::Text(p.model), key);
    lemma_added_member(a, "stream"@, JsonModel::Bool(true), key);
    lemma_added_member(b, "messages"@, all_turns(list), key);
    lemma_added_member(c, key, JsonModel::Number("0.2"@), key);
    lemma_added_member(d, "stop"@, text_list(p.stops), key);
}

proof fn lemma_anthropic_length(p: Provider, list: Seq<Turn>, stream: bool)
    ensures
        at_key(anthropic_body(p, list, stream), "max_tokens"@) == JsonModel::Number("4096"@),
{
    lemma_names_differ();
    let none: Seq<(Seq<char>, JsonModel)> = seq![];
    let key = "max_tokens"@;
    let model = JsonModel::Text(p.model);
    let limit = JsonModel::Number("4096"@);
    let system = JsonModel::Text(joined(system_texts(list), "\n\n"@));
    let chat = all_turns(chat_turns(list));
    let a = none.push(("model"@, model));
    let b = a.push((key, limit));
    assert(b =~= seq![("model"@, model), (key, limit)]);
    let c = extended(b, "stream"@, flag(stream));
    let d = c.push(("system"@, system));
    let e = d.push(("messages"@, chat));
    lemma_added_member(none, "model"@, model, key);
    lemma_added_member(a, key, limit, key);
    lemma_added_member(b, "stream"@, JsonModel::Bool(true), key);
    lemma_added_member(c, "system"@, system, key);
    lemma_added_member(d, "messages"@, chat, key);
    lemma_added_member(e, "stop_sequences"@, text_list(p.stops), key);
}

/// A turn says its role and its content and nothing else.
pub proof fn law_turns_say_no_more(p: Provider, list: Seq<Turn>, stream: bool, i: int)
    requires
        p.kind != ProviderKind::Gemini,
        p.kind != ProviderKind::Anthropic,
        0 <= i < list.len(),
    ensures
        at_index(at_key(call_of(p, list, stream).body, "messages"@), i) matches JsonModel::Object(
            members,
        ) && members.len() == 2,
{
    lemma_openai_body(p, list, stream);
    lemma_ollama_body(p, list, stream);
}

/// What the event of a line brings is taken in: its pieces go behind those before it, its
/// content behind the answer, and the reply is complete where the event says so.
pub proof fn law_events_are_taken_in(m: Reply, data: Seq<char>, value: JsonModel)
    requires
        m.kind != ProviderKind::Ollama ==> json_read(trimmed(data)) == Ok::<JsonModel, Seq<char>>(
            value,
        ) && trimmed(data).len() > 0 && trimmed(data) != "[DONE]"@,
        m.kind == ProviderKind::Ollama ==> json_read(data) == Ok::<JsonModel, Seq<char>>(value)
            && trimmed(data).len() > 0,
    ensures
        ({
            let line = if m.kind == ProviderKind::Ollama {
                data
            } else {
                "data:"@ + data
            };
            let b = brought(m.kind, value);
            &&& heard(m, line).pieces == m.pieces + b.pieces
            &&& heard(m, line).answer == m.answer + content_of(b.pieces)
            &&& b.done ==> heard(m, line).status == Standing::Done
            &&& !b.done ==> heard(m, line).status == m.status
            &&& heard(m, line).buffered == m.buffered
            &&& heard(m, line).kind == m.kind
        }),
{
    if m.kind != ProviderKind::Ollama {
        lemma_data_line(m.kind, data);
    }
}

/// Content counts for the answer, whole and in order, and thinking does not.
pub proof fn law_content_counts_for_the_answer(pieces: Seq<Piece>, t: Seq<char>)
    ensures
        content_of(seq![]).len() == 0,
        content_of(pieces.push(Piece::Content(t))) == content_of(pieces) + t,
        content_of(pieces.push(Piece::Thinking(t))) == content_of(pieces),
{
    assert(pieces.push(Piece::Content(t)).drop_last() =~= pieces);
    assert(pieces.push(Piece::Thinking(t)).drop_last() =~= pieces);
}

/// A line from Ollama that cannot be read ends the reply and is told.
pub proof fn law_unreadable_lines_are_told(m: Reply, line: Seq<char>, cause: Seq<char>)
    requires
        m.kind == ProviderKind::Ollama,
        json_read(line) == Err::<JsonModel, Seq<char>>(cause),
        trimmed(line).len() > 0,
    ensures
        heard(m, line) == (Reply {
            status: Standing::Failed(Fault { kind: m.kind, event: line, cause }),
            ..m
        }),
{
}

/// Errors name the service that the provider is.
pub proof fn law_services_have_names()
    ensures
        service(ProviderKind::Openai) == "OpenAI-compatible"@,
        service(ProviderKind::Openrouter) == "OpenAI-compatible"@,
        service(ProviderKind::CustomOpenai) == "OpenAI-compatible"@,
        service(ProviderKind::Anthropic) == "Anthropic"@,
        service(ProviderKind::Gemini) == "Gemini"@,
        service(ProviderKind::Ollama) == "Ollama"@,
{
}

/// A request to Gemini holds one content with one part, and nothing else beside its settings.
pub proof fn law_gemini_requests_say_no_more(p: Provider, list: Seq<Turn>)
    ensures
        ({
            let body = gemini_body(p, list);
            let contents = at_key(body, "contents"@);
            let content = at_index(contents, 0);
            let parts = at_key(content, "parts"@);
            let settings = at_key(body, "generationConfig"@);
            let stopping = if p.stops.len() > 0 {
                1nat
            } else {
                0
            };
            &&& contents is Array && contents->Array_0.len() == 1
            &&& content is Object && content->Object_0.len() == 2
            &&& parts is Array && parts->Array_0.len() == 1
            &&& at_index(parts, 0) is Object && at_index(parts, 0)->Object_0.len() == 1
            &&& settings is Object && settings->Object_0.len() == 1 + stopping
        }),
{
    lemma_names_differ();
    let body = gemini_body(p, list);
    let members = body->Object_0;
    assert(crate::json::member_place(members.skip(1), "generationConfig"@) == Some(0int));
    assert(crate::json::member_place(members, "generationConfig"@) == Some(1int));
    assert(crate::json::member_place(members, "contents"@) == Some(0int));
    let content = at_index(at_key(body, "contents"@), 0);
    let inner = content->Object_0;
    assert(crate::json::member_place(inner.skip(1), "parts"@) == Some(0int));
    assert(crate::json::member_place(inner, "parts"@) == Some(1int));
}

/// The options of a request to Ollama hold the stops alone, and the turns that Anthropic is sent
/// hold their role and content alone.
pub proof fn law_options_and_turns_say_no_more(p: Provider, list: Seq<Turn>, stream: bool, i: int)
    ensures
        p.kind == ProviderKind::Ollama && p.stops.len() > 0 ==> (at_key(
            call_of(p, list, stream).body,
            "options"@,
        ) matches JsonModel::Object(members) && members.len() == 1),
        p.kind == ProviderKind::Anthropic ==> (at_key(call_of(p, list, stream).body, "messages"@)
            matches JsonModel::Array(items) && (0 <= i < items.len() ==> (items[i]
            matches JsonModel::Object(members) && members.len() == 2))),
{
    lemma_anthropic_body(p, list, stream);
    if p.kind == ProviderKind::Ollama && p.stops.len() > 0 {
        lemma_ollama_options(p, list, stream);
    }
}

proof fn lemma_ollama_options(p: Provider, list: Seq<Turn>, stream: bool)
    requires
        p.stops.len() > 0,
    ensures
        at_key(ollama_body(p, list, stream), "options"@) == JsonModel::Object(
            seq![("stop"@, text_list(p.stops))],
        ),
{
    lemma_names_differ();
    let whole = seq![
        ("model"@, JsonModel::Text(p.model)),
        ("stream"@, JsonModel::Bool(stream)),
        ("messages"@, all_turns(list)),
    ];
    let none: Seq<(Seq<char>, JsonModel)> = seq![];
    let one = none.push(("model"@, JsonModel::Text(p.model)));
    let two = one.push(("stream"@, JsonModel::Bool(stream)));
    let three = two.push(("messages"@, all_turns(list)));
    assert(whole =~= three);
    let key = "options"@;
    lemma_added_member(none, "model"@, JsonModel::Text(p.model), key);
    lemma_added_member(one, "stream"@, JsonModel::Bool(stream), key);
    lemma_added_member(two, "messages"@, all_turns(list), key);
    let value = JsonModel::Object(seq![("stop"@, text_list(p.stops))]);
    match think_value(p.think) {
        Some(v) => {
            lemma_added_member(three, "think"@, v, key);
            lemma_added_member(three.push(("think"@, v)), key, value, key);
        },
        None => {
            lemma_added_member(three, key, value, key);
        },
    }
}

/// A reply without the place where an answer stands has none.
pub proof fn law_replies_without_parts_have_no_answer(value: JsonModel)
    ensures
        !(at_key(value, "content"@) is Array) ==> answer_in(ProviderKind::Anthropic, value) is None,
        !(at_key(at_key(at_index(at_key(value, "candidates"@), 0), "content"@), "parts"@) is Array)
            ==> answer_in(ProviderKind::Gemini, value) is None,
{
}

/// Gemini has no word for the end of a reply: what would be one elsewhere is read like any event.
pub proof fn law_gemini_reads_every_event(
    m: Reply,
    data: Seq<char>,
    value: JsonModel,
    cause: Seq<char>,
)
    requires
        m.kind == ProviderKind::Gemini,
        trimmed(data).len() > 0,
    ensures
        json_read(trimmed(data)) == Ok::<JsonModel, Seq<char>>(value) ==> heard(
            m,
            "data:"@ + data,
        ).pieces == m.pieces + brought(m.kind, value).pieces && heard(m, "data:"@ + data).status
            == m.status,
        json_read(trimmed(data)) == Err::<JsonModel, Seq<char>>(cause) ==> heard(m, "data:"@ + data)
            == (Reply {
            status: Standing::Failed(Fault { kind: m.kind, event: trimmed(data), cause }),
            ..m
        }),
{
    lemma_data_line(m.kind, data);
}

/// Requests to Gemini are sent below its address, whatever slashes that ends with.
pub proof fn law_gemini_requests_lie_below_the_address(p: Provider, list: Seq<Turn>, stream: bool)
    requires
        p.kind == ProviderKind::Gemini,
    ensures
        crate::text::begins(
            call_of(p, list, stream).url,
            trim_end(p.url, CharClass::Is('/')) + "/models/"@ + p.model + ":"@,
        ),
        p.key is None && stream ==> call_of(p, list, stream).url == trim_end(
            p.url,
            CharClass::Is('/'),
        ) + "/models/"@ + p.model + ":streamGenerateContent?alt=sse&key="@,
        p.key is None && !stream ==> call_of(p, list, stream).url == trim_end(
            p.url,
            CharClass::Is('/'),
        ) + "/models/"@ + p.model + ":generateContent?key="@,
{
    reveal_strlit("");
    reveal_strlit(":");
    reveal_strlit(":streamGenerateContent?alt=sse&key=");
    reveal_strlit(":generateContent?key=");
    let base = trim_end(p.url, CharClass::Is('/')) + "/models/"@ + p.model;
    let url = call_of(p, list, stream).url;
    let head = base + ":"@;
    assert(":streamGenerateContent?alt=sse&key="@[0] == ':' && ":generateContent?key="@[0] == ':');
    assert(url.subrange(0, head.len() as int) =~= head);
    if p.key is None {
        assert(url =~= base + (if stream {
            ":streamGenerateContent?alt=sse&key="@
        } else {
            ":generateContent?key="@
        }));
    }
}

}
