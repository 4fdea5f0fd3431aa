use cocore_provider::engines::openai::{
    check_status, generate_once, generate_stream, is_success, normalize_base, read_completion,
    GenerateStep, Method, OnceStep, OpenAiEngine, Reply, StreamReply, CONNECT_TIMEOUT,
    READY_TIMEOUT, REQUEST_TIMEOUT,
};
use cocore_provider::engines::sse::{
    process_sse, read_event, read_line, read_sse_stream, SseStream, StreamEvent, StreamStep,
};
use cocore_provider::engines::{EngineError, GenerateRequest, Message};
use cocore_provider::json::{parse_str, Json};

fn req() -> GenerateRequest {
    GenerateRequest {
        model: "test-model".to_string(),
        messages: vec![Message { role: "user".to_string(), content: "hi".to_string() }],
        max_tokens: 16,
        temperature: None,
        top_p: None,
        seed: None,
    }
}

fn float(x: f64) -> Option<Json> {
    serde_json::Number::from_f64(x).map(Json::Number)
}

fn engine() -> OpenAiEngine {
    OpenAiEngine::new("test-model".to_string(), "http://127.0.0.1:8080/v1/", None)
}

/// Reads all lines that have ended and takes every piece of the answer.
fn read_all(buf: &mut Vec<u8>, cursor: &mut usize, tokens: &mut (u64, u64)) -> Vec<String> {
    let mut out = vec![];
    while let Some(piece) = process_sse(buf, cursor, tokens) {
        *tokens = piece.tokens;
        out.push(piece.text);
    }
    out
}

/// Hands bytes to a stream and takes every piece of the answer.
fn take_all(stream: &mut SseStream, chunk: &[u8]) -> String {
    let mut got = String::new();
    let mut step = read_sse_stream(stream, StreamEvent::<String>::Data(chunk.to_vec()));
    while let StreamStep::Forward(delta) = step {
        got.push_str(&delta);
        step = read_sse_stream(stream, StreamEvent::Taken);
    }
    assert!(matches!(step, StreamStep::Read));
    got
}

fn end(stream: &mut SseStream) -> StreamStep<String> {
    read_sse_stream(stream, StreamEvent::Data(vec![]))
}

fn sent(request: GenerateRequest, stream: bool) -> String {
    String::from_utf8(engine().chat_request(request, stream).unwrap().body.unwrap()).unwrap()
}

#[test]
fn normalize_base_strips_trailing_slash_and_v1() {
    assert_eq!(normalize_base("http://h:8080"), "http://h:8080");
    assert_eq!(normalize_base("http://h:8080/"), "http://h:8080");
    assert_eq!(normalize_base("https://h/v1"), "https://h");
    assert_eq!(normalize_base("https://h/v1/"), "https://h");
    assert_eq!(normalize_base("  https://h  "), "https://h");
}

#[test]
fn normalize_base_edge_cases() {
    assert_eq!(normalize_base(""), "");
    assert_eq!(normalize_base("///"), "");
    assert_eq!(normalize_base("/v1"), "");
    assert_eq!(normalize_base("https://h/v1//"), "https://h");
    assert_eq!(normalize_base("https://h/v1/v1"), "https://h/v1");
    assert_eq!(normalize_base("https://h//v1"), "https://h/");
    assert_eq!(normalize_base("https://h/V1"), "https://h/V1");
    assert_eq!(normalize_base("https://h/av1"), "https://h/av1");
}

#[test]
fn base_forms_are_one_base() {
    for form in ["https://h", "https://h/", "https://h/v1", "https://h/v1/", "\thttps://h/v1 "] {
        let e = OpenAiEngine::new("m".to_string(), form, None);
        assert_eq!(e.ready_request().url, "https://h/v1/models");
        assert_eq!(e.chat_request(req(), false).unwrap().url, "https://h/v1/chat/completions");
    }
}

#[test]
fn engine_name_and_timeouts() {
    assert_eq!(engine().name(), "openai-http");
    assert_eq!((CONNECT_TIMEOUT, REQUEST_TIMEOUT, READY_TIMEOUT), (10, 600, 5));
}

#[test]
fn ready_request_and_answer() {
    let r = engine().ready_request();
    assert_eq!(r.method, Method::Get);
    assert_eq!(r.url, "http://127.0.0.1:8080/v1/models");
    assert_eq!((r.bearer, r.timeout_secs, r.content_type, r.body), (None, 5, None, None));
    assert!(engine().ready(Some(200)));
    assert!(engine().ready(Some(299)));
    for status in [Some(199), Some(300), Some(401), Some(500), None] {
        assert!(!engine().ready(status));
    }
}

#[test]
fn ready_true_when_models_endpoint_answers() {
    let engine = OpenAiEngine::new("test-model".to_string(), "http://127.0.0.1:8080", None);
    assert!(engine.ready(Some(200)));
}

#[test]
fn ready_false_when_nothing_listening() {
    let engine = OpenAiEngine::new("m".to_string(), "http://127.0.0.1:1", None);
    assert!(!engine.ready(None));
}

#[test]
fn key_goes_along_with_both_requests() {
    let e = OpenAiEngine::new("m".to_string(), "http://h", Some("k".to_string()));
    assert_eq!(e.ready_request().bearer.as_deref(), Some("k"));
    assert_eq!(e.chat_request(req(), true).unwrap().bearer.as_deref(), Some("k"));
    assert_eq!(engine().chat_request(req(), true).unwrap().bearer, None);
}

#[test]
fn chat_request_fields() {
    let r = engine().chat_request(req(), false).unwrap();
    assert_eq!(r.method, Method::Post);
    assert_eq!(r.url, "http://127.0.0.1:8080/v1/chat/completions");
    assert_eq!(r.timeout_secs, 600);
    assert_eq!(r.content_type.as_deref(), Some("application/json"));
}

#[test]
fn body_without_options() {
    assert_eq!(
        sent(req(), false),
        "{\"max_tokens\":16,\"messages\":[{\"content\":\"hi\",\"role\":\"user\"}],\
         \"model\":\"test-model\",\"stream\":false}"
    );
}

#[test]
fn streamed_body_asks_for_usage() {
    assert_eq!(
        sent(req(), true),
        "{\"max_tokens\":16,\"messages\":[{\"content\":\"hi\",\"role\":\"user\"}],\
         \"model\":\"test-model\",\"stream\":true,\"stream_options\":{\"include_usage\":true}}"
    );
}

#[test]
fn body_carries_the_sampling_settings() {
    let request = GenerateRequest {
        temperature: float(0.0),
        top_p: float(0.25),
        seed: Some(42),
        ..req()
    };
    assert_eq!(
        sent(request, false),
        "{\"max_tokens\":16,\"messages\":[{\"content\":\"hi\",\"role\":\"user\"}],\
         \"model\":\"test-model\",\"seed\":42,\"stream\":false,\"temperature\":0.0,\"top_p\":0.25}"
    );
}

#[test]
fn body_names_the_engines_model() {
    let request = GenerateRequest { model: "another".to_string(), ..req() };
    assert_eq!(sent(request, false), sent(req(), false));
    let body = engine().body(GenerateRequest { model: "another".to_string(), ..req() }, true);
    assert_eq!(body.get("model").unwrap().as_str().map(|s| s.as_str()), Some("test-model"));
}

#[test]
fn process_sse_forwards_deltas_and_reads_usage() {
    let mut buf = b"data: {\"choices\":[{\"delta\":{\"content\":\"Hel\"}}]}\n\
                    data: {\"choices\":[{\"delta\":{\"content\":\"lo\"}}]}\n\
                    data: {\"usage\":{\"prompt_tokens\":9,\"completion_tokens\":2}}\n\
                    data: [DONE]\n"
        .to_vec();
    let mut cursor = 0usize;
    let mut tokens = (0u64, 0u64);
    let mut got = String::new();
    while let Some(piece) = process_sse(&mut buf, &mut cursor, &mut tokens) {
        got.push_str(&piece.text);
        tokens = piece.tokens;
    }
    assert_eq!(got, "Hello");
    assert_eq!(tokens, (9, 2));
}

#[test]
fn process_sse_stops_behind_each_piece() {
    let first = "data: {\"usage\":{\"prompt_tokens\":3}}\n";
    let second = "data: {\"choices\":[{\"delta\":{\"content\":\"x\"}}],\"usage\":{\"completion_tokens\":4}}\n";
    let third = "data: {\"choices\":[{\"delta\":{\"content\":\"y\"}}]}\n";
    let whole = format!("{first}{second}{third}").into_bytes();
    let mut buf = whole.clone();
    let (mut cursor, mut tokens) = (0usize, (0u64, 0u64));
    let piece = process_sse(&mut buf, &mut cursor, &mut tokens).unwrap();
    // The counts of the piece's own line wait until the piece has been taken.
    assert_eq!((piece.text.as_str(), piece.tokens, tokens), ("x", (3, 4), (3, 0)));
    assert_eq!((cursor, &buf), (first.len() + second.len(), &whole));
    tokens = piece.tokens;
    let piece = process_sse(&mut buf, &mut cursor, &mut tokens).unwrap();
    assert_eq!((piece.text.as_str(), piece.tokens, tokens), ("y", (3, 4), (3, 4)));
    assert_eq!(cursor, whole.len());
    assert!(process_sse(&mut buf, &mut cursor, &mut tokens).is_none());
}

#[test]
fn process_sse_keeps_the_buffer_while_a_piece_is_out() {
    let line = b"data: {\"choices\":[{\"delta\":{\"content\":\"x\"}}]}\n";
    let mut buf = vec![b'\n'; 9000];
    buf.extend_from_slice(line);
    let whole = buf.len();
    let (mut cursor, mut tokens) = (0usize, (0u64, 0u64));
    assert!(process_sse(&mut buf, &mut cursor, &mut tokens).is_some());
    assert_eq!((cursor, buf.len()), (whole, whole));
    assert!(process_sse(&mut buf, &mut cursor, &mut tokens).is_none());
    assert_eq!((cursor, buf.len()), (0, 0));
}

#[test]
fn process_sse_stops_before_an_unended_line() {
    let whole = b"data: {\"usage\":{\"prompt_tokens\":1}}\ndata: {\"usa".to_vec();
    let mut buf = whole.clone();
    let (mut cursor, mut tokens) = (0usize, (0u64, 5u64));
    assert!(read_all(&mut buf, &mut cursor, &mut tokens).is_empty());
    assert_eq!((cursor, tokens), (36, (1, 5)));
    assert_eq!(buf, whole);
    // Nothing more has ended, so nothing changes.
    assert!(read_all(&mut buf, &mut cursor, &mut tokens).is_empty());
    assert_eq!((cursor, tokens), (36, (1, 5)));
}

#[test]
fn process_sse_cuts_a_buffer_that_has_been_read() {
    let mut buf = vec![b'\n'; 8192];
    let (mut cursor, mut tokens) = (0usize, (0u64, 0u64));
    process_sse(&mut buf, &mut cursor, &mut tokens);
    assert_eq!((cursor, buf.len()), (8192, 8192));
    buf.extend_from_slice(b"\nrest");
    process_sse(&mut buf, &mut cursor, &mut tokens);
    assert_eq!((cursor, buf.as_slice()), (0, &b"rest"[..]));
}

#[test]
fn process_sse_with_the_cursor_behind_the_buffer() {
    let mut buf = b"x\n".to_vec();
    let (mut cursor, mut tokens) = (100usize, (3u64, 4u64));
    assert!(read_all(&mut buf, &mut cursor, &mut tokens).is_empty());
    assert_eq!((cursor, tokens, buf.as_slice()), (100, (3, 4), &b"x\n"[..]));
}

#[test]
fn lines_that_carry_no_event() {
    for line in [
        &b""[..],
        b"\r",
        b": comment",
        b"event: x",
        b"data:{\"a\":1}",
        b" data: {}",
        b"data: [DONE]",
        b"data: [DONE]\r",
        b"data: {",
        b"data: \xff",
        b"data: {}\r\r!",
    ] {
        assert!(read_line(line).is_none(), "{line:?}");
    }
    assert!(read_line(b"data: {}").is_some());
    assert!(read_line(b"data: {}\r").is_some());
    // White space around the JSON, the second carriage return here, is JSON's own.
    assert!(read_line(b"data: {}\r\r").is_some());
    assert!(read_line(b"data:  1").is_some());
}

#[test]
fn events_without_a_delta() {
    for event in [
        "null",
        "{}",
        "{\"choices\":[]}",
        "{\"choices\":[{\"delta\":{\"content\":\"\"}}]}",
        "{\"choices\":[{\"delta\":{\"content\":null}}]}",
        "{\"choices\":[{\"delta\":{\"content\":7}}]}",
        "{\"choices\":[{\"message\":{\"content\":\"x\"}}]}",
        "{\"choices\":[{},{\"delta\":{\"content\":\"x\"}}]}",
    ] {
        let mut tokens = (1, 2);
        assert_eq!(read_event(&parse_str(event).unwrap(), &mut tokens), None, "{event}");
        assert_eq!(tokens, (1, 2));
    }
}

#[test]
fn events_with_counts() {
    let after = |event: &str| {
        let mut tokens = (1, 2);
        read_event(&parse_str(event).unwrap(), &mut tokens);
        tokens
    };
    assert_eq!(after("{\"usage\":{\"prompt_tokens\":9}}"), (9, 2));
    assert_eq!(after("{\"usage\":{\"completion_tokens\":9}}"), (1, 9));
    assert_eq!(after("{\"usage\":{\"prompt_tokens\":-9,\"completion_tokens\":1.5}}"), (1, 2));
    assert_eq!(after("{\"usage\":null}"), (1, 2));
    assert_eq!(after("{\"usage\":{\"prompt_tokens\":0,\"completion_tokens\":0}}"), (0, 0));
    // An object may stand where an array is usual.
    let mut tokens = (0, 0);
    let event = parse_str("{\"choices\":{\"0\":{\"delta\":{\"content\":\"x\"}}}}").unwrap();
    assert_eq!(read_event(&event, &mut tokens).as_deref(), Some("x"));
}

const STREAM: &str = "data: {\"choices\":[{\"delta\":{\"content\":\"Hello\"}}]}\n\n\
                      data: {\"choices\":[{\"delta\":{\"content\":\" th\u{e9}re\"}}]}\r\n\n\
                      data: {\"usage\":{\"prompt_tokens\":7,\"completion_tokens\":2}}\n\n\
                      data: [DONE]\n\n";

#[test]
fn reads_of_any_size_give_the_same_answer() {
    for size in 1..STREAM.len() + 1 {
        let mut stream = SseStream::new();
        let mut got = String::new();
        for chunk in STREAM.as_bytes().chunks(size) {
            got.push_str(&take_all(&mut stream, chunk));
        }
        assert_eq!(got, "Hello th\u{e9}re", "{size}");
        let step = end(&mut stream);
        assert!(matches!(step, StreamStep::Done(7, 2)), "{step:?}");
    }
}

#[test]
fn stream_without_usage_counts_nothing() {
    let mut stream = SseStream::new();
    let chunk = b"data: {\"choices\":[{\"delta\":{\"content\":\"x\"}}]}\ndata: unended";
    assert_eq!(take_all(&mut stream, chunk), "x");
    assert!(matches!(end(&mut stream), StreamStep::Done(0, 0)));
}

#[test]
fn pieces_are_handed_on_in_turn() {
    let mut stream = SseStream::new();
    let step = read_sse_stream(&mut stream, StreamEvent::<String>::Data(STREAM.as_bytes().to_vec()));
    assert!(matches!(step, StreamStep::Forward(d) if d == "Hello"));
    let step = read_sse_stream(&mut stream, StreamEvent::<String>::Taken);
    assert!(matches!(step, StreamStep::Forward(d) if d == " th\u{e9}re"));
    let step = read_sse_stream(&mut stream, StreamEvent::<String>::Taken);
    assert!(matches!(step, StreamStep::Read));
}

#[test]
fn a_refused_piece_is_the_last() {
    let mut stream = SseStream::new();
    let step = read_sse_stream(&mut stream, StreamEvent::<String>::Data(STREAM.as_bytes().to_vec()));
    assert!(matches!(step, StreamStep::Forward(d) if d == "Hello"));
    let step = read_sse_stream(&mut stream, StreamEvent::Refused("full".to_string()));
    assert!(matches!(step, StreamStep::Pass(e) if e == "full"));
    assert!(stream.has_ended());
    for event in [
        StreamEvent::Data(STREAM.as_bytes().to_vec()),
        StreamEvent::Data(vec![]),
        StreamEvent::TimedOut,
        StreamEvent::Failed("late".to_string()),
        StreamEvent::Taken,
        StreamEvent::Refused("late".to_string()),
    ] {
        assert!(matches!(read_sse_stream(&mut stream, event), StreamStep::Ended));
    }
}

#[test]
fn stream_failures() {
    for event in [StreamEvent::<String>::TimedOut, StreamEvent::WouldBlock] {
        let mut stream = SseStream::new();
        let step = read_sse_stream(&mut stream, event);
        assert!(matches!(step, StreamStep::Fail(EngineError::Stalled)));
        assert!(stream.has_ended());
    }
    let mut stream = SseStream::new();
    let step = read_sse_stream(&mut stream, StreamEvent::Failed("reset".to_string()));
    assert!(matches!(step, StreamStep::Pass(e) if e == "reset"));
    assert!(matches!(end(&mut stream), StreamStep::Ended));
}

#[test]
fn generate_once_parses_json() {
    let head = generate_once(Reply::Head { code: 200, status: "200 OK".to_string() });
    assert!(matches!(head, OnceStep::ReadBody));
    let json = "{\"choices\":[{\"message\":{\"content\":\"Hello there\"}}],\"usage\":{\"prompt_tokens\":7,\"completion_tokens\":2}}";
    match generate_once(Reply::Body(json.as_bytes().to_vec())) {
        OnceStep::Done(resp) => {
            assert_eq!(resp.text, "Hello there");
            assert_eq!((resp.tokens_in, resp.tokens_out), (7, 2));
        }
        step => panic!("{step:?}"),
    }
}

#[test]
fn generate_once_with_seed_sends_seed_field() {
    let request = GenerateRequest { temperature: float(0.0), seed: Some(42), ..req() };
    let body = sent(request, false);
    assert!(body.contains("\"seed\":42"));
    assert!(body.contains("\"temperature\":0.0"));
    let json = "{\"choices\":[{\"message\":{\"content\":\"Hello there\"}}],\"usage\":{\"prompt_tokens\":7,\"completion_tokens\":2}}";
    match generate_once(Reply::Body(json.as_bytes().to_vec())) {
        OnceStep::Done(resp) => assert_eq!(resp.text, "Hello there"),
        step => panic!("{step:?}"),
    }
}

#[test]
fn generate_once_failures() {
    let head = generate_once(Reply::Head { code: 404, status: "404 Not Found".to_string() });
    match head {
        OnceStep::Fail(e) => {
            assert_eq!(
                e.message(),
                "endpoint returned HTTP 404 Not Found (body elided to avoid content logging)"
            );
            assert_eq!(e.cause(), None);
        }
        step => panic!("{step:?}"),
    }
    let body = generate_once(Reply::Body(b"<html>".to_vec()));
    match body {
        OnceStep::Fail(e) => {
            assert_eq!(e.message(), "parsing endpoint JSON response");
            assert_eq!(e.cause().as_deref(), Some("expected value at line 1 column 1"));
        }
        step => panic!("{step:?}"),
    }
}

#[test]
fn completion_without_an_answer_is_empty() {
    for json in ["{}", "[]", "{\"choices\":[{\"message\":{\"content\":null}}],\"usage\":{\"prompt_tokens\":-1}}"] {
        let resp = read_completion(&parse_str(json).unwrap());
        assert_eq!((resp.text.as_str(), resp.tokens_in, resp.tokens_out), ("", 0, 0));
    }
}

#[test]
fn generate_stream_relays_sse_deltas() {
    let body = "data: {\"choices\":[{\"delta\":{\"content\":\"Hello\"}}]}\n\n\
                data: {\"choices\":[{\"delta\":{\"content\":\" there\"}}]}\n\n\
                data: {\"usage\":{\"prompt_tokens\":7,\"completion_tokens\":2}}\n\n\
                data: [DONE]\n\n";
    let mut stream = SseStream::new();
    let mut got = String::new();
    let mut reply = StreamReply::<String>::Head { code: 200, status: "200 OK".to_string() };
    let mut reads = vec![vec![], body.as_bytes().to_vec()];
    let resp = loop {
        reply = match generate_stream(&mut stream, reply) {
            GenerateStep::Read => StreamReply::Event(StreamEvent::Data(reads.pop().unwrap())),
            GenerateStep::Forward(delta) => {
                got.push_str(&delta);
                StreamReply::Event(StreamEvent::Taken)
            }
            GenerateStep::Done(resp) => break resp,
            step => panic!("{step:?}"),
        };
    };
    assert_eq!(got, "Hello there");
    assert_eq!(resp.text, "");
    assert_eq!((resp.tokens_in, resp.tokens_out), (7, 2));
}

#[test]
fn generate_stream_stops_at_a_refusal() {
    let mut stream = SseStream::new();
    let data = StreamReply::<String>::Event(StreamEvent::Data(STREAM.as_bytes().to_vec()));
    assert!(matches!(generate_stream(&mut stream, data), GenerateStep::Forward(d) if d == "Hello"));
    let refused = StreamReply::Event(StreamEvent::Refused("full".to_string()));
    assert!(matches!(generate_stream(&mut stream, refused), GenerateStep::Pass(e) if e == "full"));
    let more = StreamReply::<String>::Event(StreamEvent::Data(STREAM.as_bytes().to_vec()));
    assert!(matches!(generate_stream(&mut stream, more), GenerateStep::Ended));
}

#[test]
fn generate_stream_failures() {
    let mut stream = SseStream::new();
    let head = StreamReply::<String>::Head {
        code: 500,
        status: "500 Internal Server Error".to_string(),
    };
    match generate_stream(&mut stream, head) {
        GenerateStep::Fail(e) => assert_eq!(
            e.message(),
            "endpoint returned HTTP 500 Internal Server Error (streaming body elided to avoid content logging)"
        ),
        step => panic!("{step:?}"),
    }
    let late = StreamReply::<String>::Head { code: 200, status: "200 OK".to_string() };
    assert!(matches!(generate_stream(&mut stream, late), GenerateStep::Ended));

    let mut stream = SseStream::new();
    match generate_stream(&mut stream, StreamReply::Event(StreamEvent::<String>::TimedOut)) {
        GenerateStep::Fail(e) => {
            assert_eq!(e.message(), "endpoint stream timed out or stalled (exceeded 600s)");
            assert_eq!(
                e.message(),
                format!("endpoint stream timed out or stalled (exceeded {REQUEST_TIMEOUT}s)")
            );
        }
        step => panic!("{step:?}"),
    }

    let mut stream = SseStream::new();
    let failed = StreamReply::Event(StreamEvent::Failed("reset".to_string()));
    assert!(matches!(generate_stream(&mut stream, failed), GenerateStep::Pass(e) if e == "reset"));
}

#[test]
fn statuses() {
    for code in [200, 204, 299] {
        assert!(is_success(code) && check_status(code, "x", true).is_ok());
    }
    for code in [0, 100, 199, 300, 404, 500, u16::MAX] {
        assert!(!is_success(code) && check_status(code, "x", false).is_err());
    }
    assert_eq!(EngineError::Encode("why".to_string()).message(), "why");
}
