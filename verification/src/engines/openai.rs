//! The OpenAI-compatible inference engine.
//!
//! It speaks the `/v1/chat/completions` API of any server that has it: llama.cpp's
//! `llama-server`, Ollama, vLLM, LM Studio, OpenAI. The engine says which requests to
//! send and reads what comes back; the sending is the caller's.
//!
//! The model that is asked for is the operator's, never the requester's, so a remote
//! requester cannot redirect a generation.

use crate::engines::{Answer, EngineError, GenerateRequest, GenerateResponse, Message};
use crate::engines::sse::{
    after, can_follow, given_up, outcome, read_sse_stream, Outcome, SseStream, StreamEvent,
    StreamStep,
};
use crate::json::{
    bytes_read, fields_of, parse_slice, to_bytes, tokens, tree_at, tree_bytes, tree_get,
    tree_natural, tree_text, trees_of, Json, Tree,
};
use crate::text::{
    before_suffix, blank, chars_of, copies, law_before_suffix, law_stripped, law_trimmed,
    lemma_trim_keeps, lemma_trimmed_ends, strip_end, strip_suffix, stripped_end, text_of, text_view,
    trim, trimmed, whitespace,
};
use vstd::prelude::*;

verus! {

/// How long the endpoint's dial may take, in seconds.
pub const CONNECT_TIMEOUT: u64 = 10;

/// How long a whole generation may take, in seconds: long enough for a long
/// completion, but bounded, so that a wedged endpoint cannot hold a worker forever.
pub const REQUEST_TIMEOUT: u64 = 600;

/// How long the readiness probe may take, in seconds.
pub const READY_TIMEOUT: u64 = 5;

// -- URLs --

/// A base URL without the white space around it, the slashes at its end, and then a
/// `/v1` at its end.
pub open spec fn base_of(base: Seq<char>) -> Seq<char> {
    let b = stripped_end(trimmed(base), '/');
    match before_suffix(b, "/v1"@) {
        Some(front) => front,
        None => b,
    }
}

/// Normalizes a base URL: `https://h`, `https://h/` and `https://h/v1` all come out as
/// `https://h`.
pub fn normalize_base(base: &str) -> (r: String)
    ensures
        r@ == base_of(base@),
{
    let chars = chars_of(base);
    let b = strip_end(trim(chars.as_slice()), '/');
    match strip_suffix(b, "/v1") {
        Some(front) => text_of(front),
        None => text_of(b),
    }
}

// -- Requests --

/// How a request is sent.
#[derive(Debug, Clone, Copy, PartialEq, Eq, Structural)]
pub enum Method {
    Get,
    Post,
}

/// A request that is to be sent.
#[derive(Debug)]
pub struct HttpRequest {
    pub method: Method,
    pub url: String,
    /// The key to send as a bearer token.
    pub bearer: Option<String>,
    /// How long the whole request may take, in seconds.
    pub timeout_secs: u64,
    pub content_type: Option<String>,
    pub body: Option<Vec<u8>>,
}

/// A request that is to be sent, as the contracts speak of it.
pub struct Sending {
    pub method: Method,
    pub url: Seq<char>,
    pub bearer: Option<Seq<char>>,
    pub timeout_secs: u64,
    pub content_type: Option<Seq<char>>,
    pub body: Option<Seq<u8>>,
}

impl View for HttpRequest {
    type V = Sending;

    open spec fn view(&self) -> Sending {
        Sending {
            method: self.method,
            url: self.url@,
            bearer: text_view(self.bearer),
            timeout_secs: self.timeout_secs,
            content_type: text_view(self.content_type),
            body: match self.body {
                Some(b) => Some(b@),
                None => None,
            },
        }
    }
}

/// The engine for one model at one endpoint.
pub struct OpenAiEngine {
    model_id: String,
    chat_url: String,
    models_url: String,
    api_key: Option<String>,
}

/// What an engine is set to.
pub struct Settings {
    /// The model's id, which is also the `model` that the endpoint is asked for.
    pub model_id: Seq<char>,
    /// `{base}/v1/chat/completions`.
    pub chat_url: Seq<char>,
    /// `{base}/v1/models`, the readiness probe.
    pub models_url: Seq<char>,
    pub api_key: Option<Seq<char>>,
}

impl View for OpenAiEngine {
    type V = Settings;

    closed spec fn view(&self) -> Settings {
        Settings {
            model_id: self.model_id@,
            chat_url: self.chat_url@,
            models_url: self.models_url@,
            api_key: text_view(self.api_key),
        }
    }
}

/// The settings of an engine for a model at a base URL.
pub open spec fn settings_for(
    model_id: Seq<char>,
    base_url: Seq<char>,
    api_key: Option<Seq<char>>,
) -> Settings {
    Settings {
        model_id,
        chat_url: base_of(base_url) + "/v1/chat/completions"@,
        models_url: base_of(base_url) + "/v1/models"@,
        api_key,
    }
}

/// A request with the engine's key, where the engine has one.
pub open spec fn with_key(s: Settings, request: Sending) -> Sending {
    match s.api_key {
        Some(k) => Sending { bearer: Some(k), ..request },
        None => request,
    }
}

/// The readiness probe.
pub open spec fn probe(s: Settings) -> Sending {
    with_key(
        s,
        Sending {
            method: Method::Get,
            url: s.models_url,
            bearer: None,
            timeout_secs: READY_TIMEOUT,
            content_type: None,
            body: None,
        },
    )
}

/// The request for a generation, with this body.
pub open spec fn chat(s: Settings, body: Seq<u8>) -> Sending {
    with_key(
        s,
        Sending {
            method: Method::Post,
            url: s.chat_url,
            bearer: None,
            timeout_secs: REQUEST_TIMEOUT,
            content_type: Some("application/json"@),
            body: Some(body),
        },
    )
}

/// A message as the endpoint takes it.
pub open spec fn message_tree(m: Message) -> Tree {
    Tree::Object(map!["role"@ => Tree::Text(m.role@), "content"@ => Tree::Text(m.content@)])
}

/// The messages as the endpoint takes them.
pub open spec fn message_trees(messages: Seq<Message>) -> Seq<Tree> {
    messages.map_values(|m: Message| message_tree(m))
}

/// `fields` with one more, where there is a value for it.
pub open spec fn with_field(
    fields: Map<Seq<char>, Tree>,
    key: Seq<char>,
    value: Option<Tree>,
) -> Map<Seq<char>, Tree> {
    match value {
        Some(v) => fields.insert(key, v),
        None => fields,
    }
}

/// The tree of an optional value.
pub open spec fn optional_tree(j: Option<Json>) -> Option<Tree> {
    match j {
        Some(v) => Some(v@),
        None => None,
    }
}

/// An optional natural number as JSON.
pub open spec fn optional_natural(n: Option<u64>) -> Option<Tree> {
    match n {
        Some(v) => Some(Tree::Natural(v)),
        None => None,
    }
}

/// What a streamed request asks for beside the answer: a last event with the token
/// counts.
pub open spec fn stream_options(stream: bool) -> Option<Tree> {
    if stream {
        Some(Tree::Object(map!["include_usage"@ => Tree::Bool(true)]))
    } else {
        None
    }
}

/// The body of a request to `chat.completions`.
pub open spec fn body_tree(model_id: Seq<char>, request: GenerateRequest, stream: bool) -> Tree {
    let always =
        map![
        "model"@ => Tree::Text(model_id),
        "messages"@ => Tree::Array(message_trees(request.messages@)),
        "max_tokens"@ => Tree::Natural(request.max_tokens),
        "stream"@ => Tree::Bool(stream),
    ];
    let options = with_field(always, "stream_options"@, stream_options(stream));
    let temperature = with_field(options, "temperature"@, optional_tree(request.temperature));
    let top_p = with_field(temperature, "top_p"@, optional_tree(request.top_p));
    Tree::Object(with_field(top_p, "seed"@, optional_natural(request.seed)))
}

/// Adds a field to an object that is being built.
fn add_field(fields: &mut Vec<(String, Json)>, key: &str, value: Json)
    ensures
        fields_of(final(fields)@) == fields_of(old(fields)@).insert(key@, value@),
{
    let ghost before = fields@;
    fields.push((key.to_owned(), value));
    assert(fields@.drop_last() == before);
}

/// A message as the endpoint takes it.
fn message_json(m: Message) -> (r: Json)
    ensures
        r@ == message_tree(m),
{
    let mut fields: Vec<(String, Json)> = Vec::new();
    add_field(&mut fields, "role", Json::Text(m.role));
    add_field(&mut fields, "content", Json::Text(m.content));
    Json::Object(fields)
}

/// The messages as the endpoint takes them.
fn messages_json(messages: Vec<Message>) -> (r: Json)
    ensures
        r@ == Tree::Array(message_trees(messages@)),
{
    let ghost all = messages@;
    let mut items: Vec<Json> = Vec::new();
    for m in it: messages
        invariant
            it.seq() == all,
            trees_of(items@) == message_trees(all.take(it.index() as int)),
    {
        let ghost k = it.index();
        let ghost before = items@;
        items.push(message_json(m));
        assert(items@.drop_last() == before);
        assert(trees_of(items@) =~= message_trees(all.take(k + 1)));
    }
    assert(all.take(all.len() as int) == all);
    Json::Array(items)
}

impl OpenAiEngine {
    /// An engine for `model_id` at `base_url`, such as `http://127.0.0.1:8080` or
    /// `https://api.example.com`.
    pub fn new(model_id: String, base_url: &str, api_key: Option<String>) -> (r: OpenAiEngine)
        ensures
            r@ == settings_for(model_id@, base_url@, text_view(api_key)),
            r@.model_id == model_id@,
            r@.api_key == text_view(api_key),
    {
        let base = normalize_base(base_url);
        OpenAiEngine {
            model_id,
            chat_url: base.clone().concat("/v1/chat/completions"),
            models_url: base.concat("/v1/models"),
            api_key,
        }
    }

    /// The engine's name.
    pub fn name(&self) -> (r: &'static str)
        ensures
            r@ == "openai-http"@,
    {
        "openai-http"
    }

    /// The request with the engine's key, where the engine has one.
    fn with_auth(&self, request: HttpRequest) -> (r: HttpRequest)
        ensures
            r@ == with_key(self@, request@),
    {
        match &self.api_key {
            Some(k) => HttpRequest { bearer: Some(k.clone()), ..request },
            None => request,
        }
    }

    /// The body of a request to `chat.completions`. A streamed one also asks for a
    /// last event with the token counts, so that they are exact.
    pub fn body(&self, request: GenerateRequest, stream: bool) -> (r: Json)
        ensures
            r@ == body_tree(self@.model_id, request, stream),
            tree_get(r@, "model"@) == Some(Tree::Text(self@.model_id)),
    {
        proof {
            law_body_fields(self@.model_id, request, stream);
        }
        let mut fields: Vec<(String, Json)> = Vec::new();
        add_field(&mut fields, "model", Json::Text(self.model_id.clone()));
        add_field(&mut fields, "messages", messages_json(request.messages));
        add_field(&mut fields, "max_tokens", Json::Natural(request.max_tokens));
        add_field(&mut fields, "stream", Json::Bool(stream));
        if stream {
            let mut options: Vec<(String, Json)> = Vec::new();
            add_field(&mut options, "include_usage", Json::Bool(true));
            add_field(&mut fields, "stream_options", Json::Object(options));
        }
        if let Some(t) = request.temperature {
            add_field(&mut fields, "temperature", t);
        }
        if let Some(p) = request.top_p {
            add_field(&mut fields, "top_p", p);
        }
        if let Some(s) = request.seed {
            add_field(&mut fields, "seed", Json::Natural(s));
        }
        Json::Object(fields)
    }

    /// The readiness probe: the endpoint's list of models.
    pub fn ready_request(&self) -> (r: HttpRequest)
        ensures
            r@ == probe(self@),
    {
        self.with_auth(
            HttpRequest {
                method: Method::Get,
                url: self.models_url.clone(),
                bearer: None,
                timeout_secs: READY_TIMEOUT,
                content_type: None,
                body: None,
            },
        )
    }

    /// Whether the endpoint is ready, by the status that answered the probe; `None`
    /// where nothing answered.
    pub fn ready(&self, status: Option<u16>) -> (r: bool)
        ensures
            r == (status matches Some(code) && is_success_code(code)),
    {
        match status {
            Some(code) => is_success(code),
            None => false,
        }
    }

    /// The request for a generation. Every body can be written as JSON, so there
    /// always is one.
    pub fn chat_request(&self, request: GenerateRequest, stream: bool) -> (r: Result<
        HttpRequest,
        EngineError,
    >)
        ensures
            r is Ok,
            r->Ok_0@ == chat(self@, tree_bytes(body_tree(self@.model_id, request, stream))),
    {
        match to_bytes(self.body(request, stream)) {
            Ok(b) => Ok(
                self.with_auth(
                    HttpRequest {
                        method: Method::Post,
                        url: self.chat_url.clone(),
                        bearer: None,
                        timeout_secs: REQUEST_TIMEOUT,
                        content_type: Some("application/json".to_owned()),
                        body: Some(b),
                    },
                ),
            ),
            Err(reason) => Err(EngineError::Encode(reason)),
        }
    }
}

// -- Responses --

/// Whether a status code says success.
pub open spec fn is_success_code(code: u16) -> bool {
    200 <= code < 300
}

/// Whether a status code says success.
pub fn is_success(code: u16) -> (r: bool)
    ensures
        r == is_success_code(code),
{
    200 <= code && code < 300
}

/// Turns a status that is no success into an error. The error names the status and
/// nothing of the body.
pub fn check_status(code: u16, status: &str, stream: bool) -> (r: Result<(), EngineError>)
    ensures
        r is Ok <==> is_success_code(code),
        r matches Err(e) ==> if stream {
            e matches EngineError::StreamStatus(s) && s@ == status@
        } else {
            e matches EngineError::Status(s) && s@ == status@
        },
{
    if is_success(code) {
        Ok(())
    } else if stream {
        Err(EngineError::StreamStatus(status.to_owned()))
    } else {
        Err(EngineError::Status(status.to_owned()))
    }
}

/// Where a completion holds the answer.
pub open spec fn answer_path() -> Seq<Seq<char>> {
    seq!["choices"@, "0"@, "message"@, "content"@]
}

/// A count that a completion's `usage` gives, zero where it gives none.
pub open spec fn usage_count(completion: Tree, key: Seq<char>) -> u64 {
    match tree_natural(tree_at(completion, seq!["usage"@, key])) {
        Some(n) => n,
        None => 0,
    }
}

/// What a completion says: its answer, empty where it holds none, and its counts.
pub open spec fn completion_answer(completion: Tree) -> Answer {
    Answer {
        text: match tree_text(tree_at(completion, answer_path())) {
            Some(s) => s,
            None => Seq::empty(),
        },
        tokens_in: usage_count(completion, "prompt_tokens"@),
        tokens_out: usage_count(completion, "completion_tokens"@),
    }
}

/// A count that a completion's `usage` gives.
fn read_usage(completion: &Json, key: &str) -> (r: u64)
    ensures
        r == usage_count(completion@, key@),
{
    let path: [&str; 2] = ["usage", key];
    proof {
        assert(tokens(path@) =~= seq!["usage"@, key@]);
    }
    match completion.at(path.as_slice()) {
        Some(count) => match count.as_u64() {
            Some(n) => n,
            None => 0,
        },
        None => 0,
    }
}

/// Reads a completion that was not streamed.
pub fn read_completion(completion: &Json) -> (r: GenerateResponse)
    ensures
        r@ == completion_answer(completion@),
{
    let path: [&str; 4] = ["choices", "0", "message", "content"];
    proof {
        assert(tokens(path@) =~= answer_path());
    }
    let text = match completion.at(path.as_slice()) {
        Some(content) => match content.as_str() {
            Some(s) => s.clone(),
            None => String::new(),
        },
        None => String::new(),
    };
    GenerateResponse {
        text,
        tokens_in: read_usage(completion, "prompt_tokens"),
        tokens_out: read_usage(completion, "completion_tokens"),
    }
}

/// What the endpoint answered to a request that was not streamed.
#[derive(Debug)]
pub enum Reply {
    /// The status, as a code and as text.
    Head { code: u16, status: String },
    /// The whole body.
    Body(Vec<u8>),
}

/// What is to be done after an answer to a request that was not streamed.
#[derive(Debug)]
pub enum OnceStep {
    /// Read the body.
    ReadBody,
    /// The generation is complete.
    Done(GenerateResponse),
    /// Give up.
    Fail(EngineError),
}

/// Goes on with a generation that is not streamed, by what the endpoint answered. The
/// body is asked for only after a status that says success.
pub fn generate_once(reply: Reply) -> (r: OnceStep)
    ensures
        match reply {
            Reply::Head { code, status } => if is_success_code(code) {
                r is ReadBody
            } else {
                r matches OnceStep::Fail(EngineError::Status(s)) && s@ == status@
            },
            Reply::Body(body) => match bytes_read(body@) {
                Ok(completion) => r is Done && r->Done_0@ == completion_answer(completion),
                Err(reason) => r matches OnceStep::Fail(EngineError::Decode(s)) && s@ == reason,
            },
        },
{
    match reply {
        Reply::Head { code, status } => match check_status(code, status.as_str(), false) {
            Ok(_) => OnceStep::ReadBody,
            Err(e) => OnceStep::Fail(e),
        },
        Reply::Body(body) => match parse_slice(body.as_slice()) {
            Ok(completion) => OnceStep::Done(read_completion(&completion)),
            Err(reason) => OnceStep::Fail(EngineError::Decode(reason)),
        },
    }
}

/// What came of the last step of a streamed generation. An error of the caller's own
/// has the type `E`.
#[derive(Debug)]
pub enum StreamReply<E> {
    /// The endpoint's status, as a code and as text.
    Head { code: u16, status: String },
    /// What came of a read from the body, or of a piece that was handed on.
    Event(StreamEvent<E>),
}

/// What is to be done next in a streamed generation.
#[derive(Debug)]
pub enum GenerateStep<E> {
    /// Read from the body.
    Read,
    /// Hand this piece of the answer on as content.
    Forward(String),
    /// The generation is complete.
    Done(GenerateResponse),
    /// Give up.
    Fail(EngineError),
    /// Give up with the caller's own error, as it is.
    Pass(E),
    /// Nothing: the generation is complete or has been given up before.
    Ended,
}

/// What a streamed generation gave: no text, since it has been handed on, and the
/// counts.
pub open spec fn streamed_answer(tokens: (u64, u64)) -> Answer {
    Answer { text: Seq::empty(), tokens_in: tokens.0, tokens_out: tokens.1 }
}

/// Whether a step is what the stream's outcome asks for.
pub open spec fn step_for<E>(step: GenerateStep<E>, outcome: Outcome<E>) -> bool {
    match outcome {
        Outcome::Read => step is Read,
        Outcome::Forward(delta) => step is Forward && step->Forward_0@ == delta,
        Outcome::Done(tokens_in, tokens_out) => step is Done && step->Done_0@ == streamed_answer(
            (tokens_in, tokens_out),
        ),
        Outcome::Fail(e) => step == GenerateStep::<E>::Fail(e),
        Outcome::Pass(e) => step == GenerateStep::Pass(e),
        Outcome::Ended => step is Ended,
    }
}

/// Goes on with a streamed generation. The body is read only after a status that says
/// success, and after a piece of the answer that was refused nothing more is handed on.
pub fn generate_stream<E>(stream: &mut SseStream, reply: StreamReply<E>) -> (r: GenerateStep<E>)
    requires
        old(stream).wf(),
        reply matches StreamReply::Event(event) ==> can_follow(old(stream)@, event),
    ensures
        final(stream).wf(),
        match reply {
            StreamReply::Head { code, status } => if old(stream)@.ended {
                &&& final(stream)@ == old(stream)@
                &&& r is Ended
            } else if is_success_code(code) {
                &&& final(stream)@ == old(stream)@
                &&& r is Read
            } else {
                &&& final(stream)@ == given_up(old(stream)@)
                &&& r matches GenerateStep::Fail(EngineError::StreamStatus(s))
                &&& s@ == status@
            },
            StreamReply::Event(event) => {
                &&& final(stream)@ == after(old(stream)@, event)
                &&& step_for(r, outcome(old(stream)@, event))
            },
        },
{
    match reply {
        StreamReply::Head { code, status } => if stream.has_ended() {
            GenerateStep::Ended
        } else {
            match check_status(code, status.as_str(), true) {
                Ok(_) => GenerateStep::Read,
                Err(e) => {
                    stream.give_up();
                    GenerateStep::Fail(e)
                },
            }
        },
        StreamReply::Event(event) => match read_sse_stream(stream, event) {
            StreamStep::Read => GenerateStep::Read,
            StreamStep::Forward(delta) => GenerateStep::Forward(delta),
            StreamStep::Done(tokens_in, tokens_out) => GenerateStep::Done(
                GenerateResponse { text: String::new(), tokens_in, tokens_out },
            ),
            StreamStep::Fail(e) => GenerateStep::Fail(e),
            StreamStep::Pass(e) => GenerateStep::Pass(e),
            StreamStep::Ended => GenerateStep::Ended,
        },
    }
}

// -- Laws --

/// The body names the engine's model, whatever model the request names: two requests
/// that differ in nothing else have the same body.
pub proof fn law_model_is_the_engines(
    model_id: Seq<char>,
    request: GenerateRequest,
    other: GenerateRequest,
    stream: bool,
)
    requires
        request == (GenerateRequest { model: request.model, ..other }),
    ensures
        tree_get(body_tree(model_id, request, stream), "model"@) == Some(Tree::Text(model_id)),
        body_tree(model_id, request, stream) == body_tree(model_id, other, stream),
{
    law_body_fields(model_id, request, stream);
}

/// What the body holds under each key: the model, the messages, the limit and whether
/// to stream, always; the wish for token counts exactly where it streams; and the
/// temperature, the nucleus mass and the seed exactly where the request sets them.
pub proof fn law_body_fields(model_id: Seq<char>, request: GenerateRequest, stream: bool)
    ensures
        tree_get(body_tree(model_id, request, stream), "model"@) == Some(Tree::Text(model_id)),
        tree_get(body_tree(model_id, request, stream), "messages"@) == Some(
            Tree::Array(message_trees(request.messages@)),
        ),
        tree_get(body_tree(model_id, request, stream), "max_tokens"@) == Some(
            Tree::Natural(request.max_tokens),
        ),
        tree_get(body_tree(model_id, request, stream), "stream"@) == Some(Tree::Bool(stream)),
        tree_get(body_tree(model_id, request, stream), "stream_options"@) == stream_options(stream),
        tree_get(body_tree(model_id, request, stream), "temperature"@) == optional_tree(
            request.temperature,
        ),
        tree_get(body_tree(model_id, request, stream), "top_p"@) == optional_tree(request.top_p),
        tree_get(body_tree(model_id, request, stream), "seed"@) == optional_natural(request.seed),
{
    reveal_strlit("model");
    reveal_strlit("messages");
    reveal_strlit("max_tokens");
    reveal_strlit("stream");
    reveal_strlit("stream_options");
    reveal_strlit("temperature");
    reveal_strlit("top_p");
    reveal_strlit("seed");
    assert("model"@.len() == 5 && "messages"@.len() == 8 && "max_tokens"@.len() == 10);
    assert("stream"@.len() == 6 && "stream_options"@.len() == 14);
    assert("temperature"@.len() == 11 && "top_p"@.len() == 5 && "seed"@.len() == 4);
    assert("model"@[0] != "top_p"@[0]);
}

/// The key goes with both requests where the engine has one, and with neither where
/// it has none.
pub proof fn law_key_goes_along(s: Settings, body: Seq<u8>)
    ensures
        probe(s).bearer == s.api_key,
        chat(s, body).bearer == s.api_key,
{
}

/// White space around a base URL makes no difference.
pub proof fn law_base_ignores_space(base: Seq<char>)
    ensures
        base_of(trimmed(base)) == base_of(base),
{
    lemma_trimmed_ends(base);
    lemma_trim_keeps(trimmed(base));
}

/// A base URL may be written with or without `/v1`, and with or without a slash at its
/// end: the four forms are the same base, unless the base itself ends with `/v1`, in
/// which case it has to be followed by another.
pub proof fn law_base_forms(b: Seq<char>)
    requires
        trimmed(b) == b,
        b.len() > 0 ==> b.last() != '/',
    ensures
        !"/v1"@.is_suffix_of(b) ==> base_of(b) == b && base_of(b + "/"@) == b,
        base_of(b + "/v1"@) == b,
        base_of(b + "/v1/"@) == b,
{
    reveal_strlit("/");
    reveal_strlit("/v1");
    reveal_strlit("/v1/");
    lemma_trimmed_ends(b);
    let slash = b + "/"@;
    lemma_trim_keeps(slash);
    assert(slash.drop_last() =~= b);
    let v1 = b + "/v1"@;
    lemma_trim_keeps(v1);
    assert(v1.skip(v1.len() - 3) =~= "/v1"@);
    assert(v1.take(v1.len() - 3) =~= b);
    let v1_slash = b + "/v1/"@;
    lemma_trim_keeps(v1_slash);
    assert(v1_slash.drop_last() =~= v1);
}

/// A base URL loses the white space around it, the slashes at its end and one `/v1` at its
/// end, and nothing else: what stands before them is kept as it is.
pub proof fn law_base(before: Seq<char>, b: Seq<char>, slashes: Seq<char>, behind: Seq<char>)
    requires
        blank(before),
        blank(behind),
        copies(slashes, '/'),
        b.len() > 0 ==> !whitespace(b.first()),
    ensures
        b.len() > 0 && !whitespace(b.last()) && b.last() != '/' && !"/v1"@.is_suffix_of(b)
            ==> base_of(before + (b + slashes) + behind) == b,
        b.len() == 0 ==> base_of(before + (b + slashes) + behind) == b,
        base_of(before + (b + "/v1"@ + slashes) + behind) == b,
{
    reveal_strlit("/v1");
    assert(slashes.len() > 0 ==> slashes[0] == '/' && slashes[slashes.len() - 1] == '/');
    let plain = b + slashes;
    law_stripped(b, slashes, '/');
    if b.len() == 0 || !whitespace(b.last()) {
        assert(plain.len() > 0 ==> !whitespace(plain.first()) && !whitespace(plain.last()));
        law_trimmed(before, plain, behind);
    }
    let v1 = b + "/v1"@;
    law_trimmed(before, v1 + slashes, behind);
    law_stripped(v1, slashes, '/');
    law_before_suffix(v1, b, "/v1"@);
}

/// An engine is set to the very model and the very key that it was made with, and asks at
/// the API's two paths under its base URL.
pub proof fn law_engine_settings(
    model_id: Seq<char>,
    base_url: Seq<char>,
    api_key: Option<Seq<char>>,
)
    ensures
        settings_for(model_id, base_url, api_key).model_id == model_id,
        settings_for(model_id, base_url, api_key).api_key == api_key,
        settings_for(model_id, base_url, api_key).chat_url == base_of(base_url)
            + "/v1/chat/completions"@,
        settings_for(model_id, base_url, api_key).models_url == base_of(base_url) + "/v1/models"@,
{
}

/// The endpoint is asked for the very model that the engine was made for, whatever its id
/// holds and whatever the request names.
pub proof fn law_operators_model_is_asked_for(
    model_id: Seq<char>,
    base_url: Seq<char>,
    api_key: Option<Seq<char>>,
    request: GenerateRequest,
    stream: bool,
)
    ensures
        tree_get(
            body_tree(settings_for(model_id, base_url, api_key).model_id, request, stream),
            "model"@,
        ) == Some(Tree::Text(model_id)),
{
    law_body_fields(model_id, request, stream);
}

/// The messages are sent all of them and in order: the array has as many items as there are
/// messages, and each item is an object that holds its message's role and content as they
/// are, and nothing else.
pub proof fn law_messages_are_sent(
    model_id: Seq<char>,
    request: GenerateRequest,
    stream: bool,
    i: int,
    key: Seq<char>,
)
    ensures
        tree_get(body_tree(model_id, request, stream), "messages"@) matches Some(Tree::Array(items))
            && {
            &&& items.len() == request.messages@.len()
            &&& 0 <= i < items.len() ==> {
                &&& items[i] is Object
                &&& tree_get(items[i], "role"@) == Some(Tree::Text(request.messages@[i].role@))
                &&& tree_get(items[i], "content"@) == Some(
                    Tree::Text(request.messages@[i].content@),
                )
                &&& key != "role"@ && key != "content"@ ==> tree_get(items[i], key) is None
            }
        },
{
    law_body_fields(model_id, request, stream);
    reveal_strlit("role");
    reveal_strlit("content");
    assert("role"@.len() == 4 && "content"@.len() == 7);
}

/// The limit and whether to stream are sent as the request has them. A streamed request asks
/// for a last event with the counts, and one that is not streamed does not. The temperature,
/// the nucleus mass and the seed are sent as the request sets them, and not at all where it
/// does not.
pub proof fn law_settings_are_sent(model_id: Seq<char>, request: GenerateRequest, stream: bool)
    ensures
        tree_get(body_tree(model_id, request, stream), "max_tokens"@) == Some(
            Tree::Natural(request.max_tokens),
        ),
        tree_get(body_tree(model_id, request, stream), "stream"@) == Some(Tree::Bool(stream)),
        stream ==> (tree_get(body_tree(model_id, request, stream), "stream_options"@) matches Some(
            Tree::Object(fields),
        ) && fields.dom() == set!["include_usage"@] && fields["include_usage"@] == Tree::Bool(
            true,
        )),
        !stream ==> tree_get(body_tree(model_id, request, stream), "stream_options"@) is None,
        request.temperature matches Some(j) ==> tree_get(
            body_tree(model_id, request, stream),
            "temperature"@,
        ) == Some(j@),
        request.temperature is None ==> tree_get(
            body_tree(model_id, request, stream),
            "temperature"@,
        ) is None,
        request.top_p matches Some(j) ==> tree_get(body_tree(model_id, request, stream), "top_p"@)
            == Some(j@),
        request.top_p is None ==> tree_get(body_tree(model_id, request, stream), "top_p"@) is None,
        request.seed matches Some(n) ==> tree_get(body_tree(model_id, request, stream), "seed"@)
            == Some(Tree::Natural(n)),
        request.seed is None ==> tree_get(body_tree(model_id, request, stream), "seed"@) is None,
        body_tree(model_id, request, stream) is Object,
{
    law_body_fields(model_id, request, stream);
    if stream {
        let fields = stream_options(stream)->0->Object_0;
        assert(fields.dom() =~= set!["include_usage"@]);
    }
}

/// The body holds nothing but what the API's fields say.
pub proof fn law_nothing_else_is_sent(
    model_id: Seq<char>,
    request: GenerateRequest,
    stream: bool,
    key: Seq<char>,
)
    requires
        key != "model"@,
        key != "messages"@,
        key != "max_tokens"@,
        key != "stream"@,
        key != "stream_options"@,
        key != "temperature"@,
        key != "top_p"@,
        key != "seed"@,
    ensures
        tree_get(body_tree(model_id, request, stream), key) is None,
{
}

/// What is sent: the probe is a `GET` of the models without a body, and a generation a
/// `POST` of its body, as JSON, to the chat. The probe has five seconds and a generation ten
/// minutes.
pub proof fn law_requests(s: Settings, body: Seq<u8>)
    ensures
        probe(s).method == Method::Get,
        probe(s).url == s.models_url,
        probe(s).timeout_secs == 5,
        probe(s).content_type is None,
        probe(s).body is None,
        chat(s, body).method == Method::Post,
        chat(s, body).url == s.chat_url,
        chat(s, body).timeout_secs == 600,
        chat(s, body).content_type == Some("application/json"@),
        chat(s, body).body == Some(body),
{
}

/// What a request's contract speaks of is the request: each part of it as it is.
pub proof fn law_request_parts(r: HttpRequest)
    ensures
        r@.method == r.method,
        r@.url == r.url@,
        r@.timeout_secs == r.timeout_secs,
        r.bearer matches Some(k) ==> r@.bearer == Some(k@),
        r.bearer is None ==> r@.bearer is None,
        r.content_type matches Some(k) ==> r@.content_type == Some(k@),
        r.content_type is None ==> r@.content_type is None,
        r.body matches Some(b) ==> r@.body == Some(b@),
        r.body is None ==> r@.body is None,
{
}

/// A status says success exactly where it lies in the two hundreds.
pub proof fn law_success(code: u16)
    ensures
        is_success_code(code) <==> code / 100 == 2,
{
}

/// The answer of a completion is its `choices[0].message.content`, whole and whatever
/// characters it holds; where nothing is there, or something that is no text, it is empty.
pub proof fn law_completion_text(completion: Tree, s: Seq<char>)
    ensures
        tree_at(completion, seq!["choices"@, "0"@, "message"@, "content"@]) == Some(Tree::Text(s))
            ==> completion_answer(completion).text == s,
        !(tree_at(completion, seq!["choices"@, "0"@, "message"@, "content"@]) matches Some(
            Tree::Text(_),
        )) ==> completion_answer(completion).text.len() == 0,
{
    assert(answer_path() =~= seq!["choices"@, "0"@, "message"@, "content"@]);
}

/// The counts of a completion are those that its `usage` gives: the prompt's by
/// `prompt_tokens` and the completion's by `completion_tokens`, each zero where it is not
/// given as a natural number.
pub proof fn law_completion_counts(completion: Tree, n: u64)
    ensures
        tree_at(completion, seq!["usage"@, "prompt_tokens"@]) == Some(Tree::Natural(n))
            ==> completion_answer(completion).tokens_in == n,
        !(tree_at(completion, seq!["usage"@, "prompt_tokens"@]) matches Some(Tree::Natural(_)))
            ==> completion_answer(completion).tokens_in == 0,
        tree_at(completion, seq!["usage"@, "completion_tokens"@]) == Some(Tree::Natural(n))
            ==> completion_answer(completion).tokens_out == n,
        !(tree_at(completion, seq!["usage"@, "completion_tokens"@]) matches Some(Tree::Natural(_)))
            ==> completion_answer(completion).tokens_out == 0,
{
}

/// A streamed generation does what its stream asks for: it hands on the very text, ends with
/// the very counts and no text of its own, and fails with the very error.
pub proof fn law_generation_follows_stream<E>(step: GenerateStep<E>, outcome: Outcome<E>)
    requires
        step_for(step, outcome),
    ensures
        outcome is Read <==> step is Read,
        outcome is Ended <==> step is Ended,
        outcome matches Outcome::Forward(delta) ==> (step matches GenerateStep::Forward(s) && s@
            == delta),
        outcome matches Outcome::Done(tokens_in, tokens_out) ==> (step matches GenerateStep::Done(r)
            && r.text@.len() == 0 && r.tokens_in == tokens_in && r.tokens_out == tokens_out),
        outcome matches Outcome::Fail(e) ==> step == GenerateStep::<E>::Fail(e),
        outcome matches Outcome::Pass(e) ==> step == GenerateStep::Pass(e),
{
}

} // verus!
