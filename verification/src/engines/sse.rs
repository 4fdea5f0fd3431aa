//! Server-sent events of a streamed chat completion.
//!
//! The endpoint sends lines. Those that start with `data: ` carry a JSON event, which
//! may hold a piece of the answer (`choices[0].delta.content`) and token counts
//! (`usage`). Any other line is passed over: an empty one, one that is not UTF-8, the
//! closing `[DONE]`, and one whose data is no JSON.
//!
//! Bytes arrive in pieces of any size, so a line may be cut anywhere. [`SseStream`]
//! keeps the part of a line that has not ended yet.
//!
//! A piece of the answer is handed on as soon as its line has been read, and before
//! the next line is. Whoever takes it may refuse it: nothing more is then handed on.

use crate::engines::EngineError;
use crate::json::{
    law_path_through_array, law_path_through_object, parse_str, text_tree, tree_at, tree_get, tree_natural, tree_text, Json, Tree,
};
use crate::text::{
    after_prefix, chars_of, law_after_prefix, same, strip_prefix, text_of, written,
};
use vstd::prelude::*;
use vstd::slice::slice_subrange;
use vstd::utf8::{decode_utf8, valid_utf8};

verus! {

/// How much of the buffer may have been read before it is cut off.
pub const COMPACT_AFTER: usize = 8192;

// -- What bytes say --

/// The place of the first line feed, or the length where there is none.
pub open spec fn newline(b: Seq<u8>) -> nat
    decreases b.len(),
{
    if b.len() == 0 || b.first() == 10 {
        0
    } else {
        1 + newline(b.skip(1))
    }
}

/// A line without the carriage return that it may end with.
pub open spec fn line_body(line: Seq<u8>) -> Seq<u8> {
    if line.len() > 0 && line.last() == 13 {
        line.drop_last()
    } else {
        line
    }
}

/// The data that a line carries.
pub open spec fn line_data(line: Seq<u8>) -> Option<Seq<char>> {
    if valid_utf8(line_body(line)) {
        match after_prefix(decode_utf8(line_body(line)), "data: "@) {
            Some(data) if data != "[DONE]"@ => Some(data),
            _ => None,
        }
    } else {
        None
    }
}

/// The event that a line carries.
pub open spec fn line_event(line: Seq<u8>) -> Option<Tree> {
    match line_data(line) {
        Some(data) => text_tree(data),
        None => None,
    }
}

/// Where an event holds its piece of the answer.
pub open spec fn delta_path() -> Seq<Seq<char>> {
    seq!["choices"@, "0"@, "delta"@, "content"@]
}

/// The piece of the answer that an event holds, where it holds one that is not empty.
pub open spec fn event_delta(event: Tree) -> Option<Seq<char>> {
    match tree_text(tree_at(event, delta_path())) {
        Some(s) if s.len() > 0 => Some(s),
        _ => None,
    }
}

/// A count that an event's `usage` gives under `key`.
pub open spec fn event_count(event: Tree, key: Seq<char>) -> Option<u64> {
    match tree_get(event, "usage"@) {
        Some(usage) => tree_natural(tree_get(usage, key)),
        None => None,
    }
}

/// `count`, or `before` where there is none.
pub open spec fn or_before(count: Option<u64>, before: u64) -> u64 {
    match count {
        Some(n) => n,
        None => before,
    }
}

/// The prompt and completion counts after an event.
pub open spec fn event_tokens(event: Tree, before: (u64, u64)) -> (u64, u64) {
    (
        or_before(event_count(event, "prompt_tokens"@), before.0),
        or_before(event_count(event, "completion_tokens"@), before.1),
    )
}

/// The piece of the answer that a line carries.
pub open spec fn line_delta(line: Seq<u8>) -> Option<Seq<char>> {
    match line_event(line) {
        Some(event) => event_delta(event),
        None => None,
    }
}

/// The pieces of the answer that a line carries: one or none.
pub open spec fn line_deltas(line: Seq<u8>) -> Seq<Seq<char>> {
    match line_delta(line) {
        Some(delta) => seq![delta],
        None => Seq::empty(),
    }
}

/// The counts after a line.
pub open spec fn line_tokens(line: Seq<u8>, before: (u64, u64)) -> (u64, u64) {
    match line_event(line) {
        Some(event) => event_tokens(event, before),
        None => before,
    }
}

/// The lines in `b` that have ended.
pub open spec fn lines_in(b: Seq<u8>) -> Seq<Seq<u8>>
    decreases b.len(),
{
    let n = newline(b) as int;
    if n < b.len() {
        seq![b.take(n)] + lines_in(b.skip(n + 1))
    } else {
        Seq::empty()
    }
}

/// What follows the last line in `b` that has ended.
pub open spec fn partial_in(b: Seq<u8>) -> Seq<u8>
    decreases b.len(),
{
    let n = newline(b) as int;
    if n < b.len() {
        partial_in(b.skip(n + 1))
    } else {
        b
    }
}

/// The pieces of the answer in the lines of `b` that have ended, in order.
pub open spec fn deltas_in(b: Seq<u8>) -> Seq<Seq<char>>
    decreases b.len(),
{
    let n = newline(b) as int;
    if n < b.len() {
        line_deltas(b.take(n)) + deltas_in(b.skip(n + 1))
    } else {
        Seq::empty()
    }
}

/// The counts after the lines of `b` that have ended.
pub open spec fn tokens_in(b: Seq<u8>, before: (u64, u64)) -> (u64, u64)
    decreases b.len(),
{
    let n = newline(b) as int;
    if n < b.len() {
        tokens_in(b.skip(n + 1), line_tokens(b.take(n), before))
    } else {
        before
    }
}

/// The piece of the answer in the first line of `b` that has ended and carries one.
pub open spec fn first_delta(b: Seq<u8>) -> Option<Seq<char>>
    decreases b.len(),
{
    let n = newline(b) as int;
    if n < b.len() {
        match line_delta(b.take(n)) {
            Some(delta) => Some(delta),
            None => first_delta(b.skip(n + 1)),
        }
    } else {
        None
    }
}

/// What follows the first line of `b` that has ended and carries a piece of the
/// answer; where there is none, what follows the last line that has ended.
pub open spec fn past_first(b: Seq<u8>) -> Seq<u8>
    decreases b.len(),
{
    let n = newline(b) as int;
    if n < b.len() {
        if line_delta(b.take(n)) is Some {
            b.skip(n + 1)
        } else {
            past_first(b.skip(n + 1))
        }
    } else {
        b
    }
}

/// The counts before the first line of `b` that has ended and carries a piece of the
/// answer.
pub open spec fn tokens_before_first(b: Seq<u8>, before: (u64, u64)) -> (u64, u64)
    decreases b.len(),
{
    let n = newline(b) as int;
    if n < b.len() && line_delta(b.take(n)) is None {
        tokens_before_first(b.skip(n + 1), line_tokens(b.take(n), before))
    } else {
        before
    }
}

/// The counts after the first line of `b` that has ended and carries a piece of the
/// answer.
pub open spec fn tokens_past_first(b: Seq<u8>, before: (u64, u64)) -> (u64, u64)
    decreases b.len(),
{
    let n = newline(b) as int;
    if n < b.len() {
        if line_delta(b.take(n)) is Some {
            line_tokens(b.take(n), before)
        } else {
            tokens_past_first(b.skip(n + 1), line_tokens(b.take(n), before))
        }
    } else {
        before
    }
}

/// What the buffer holds behind the cursor.
pub open spec fn unread(b: Seq<u8>, cursor: int) -> Seq<u8> {
    if cursor < b.len() {
        b.skip(cursor)
    } else {
        Seq::empty()
    }
}

/// Where reading stops: behind the last line that has ended.
pub open spec fn read_to(b: Seq<u8>, cursor: int) -> int {
    cursor + unread(b, cursor).len() - partial_in(unread(b, cursor)).len()
}

// -- Reading lines --

/// `std::str::from_utf8`: bytes that are UTF-8 give the text that they encode, and
/// any others give none.
#[verifier::external_body]
fn from_utf8(b: &[u8]) -> (r: Option<&str>)
    ensures
        r is Some <==> valid_utf8(b@),
        r matches Some(s) ==> s@ == decode_utf8(b@),
{
    std::str::from_utf8(b).ok()
}

/// The place of the first line feed at or behind `from`.
fn find_newline(b: &Vec<u8>, from: usize) -> (r: usize)
    requires
        from <= b@.len(),
    ensures
        r == from + newline(b@.skip(from as int)),
        from <= r <= b@.len(),
{
    let mut i: usize = from;
    while i < b.len() && b[i] != 10
        invariant
            from <= i <= b@.len(),
            newline(b@.skip(from as int)) == i - from + newline(b@.skip(i as int)),
        decreases b@.len() - i,
    {
        assert(b@.skip(i as int).skip(1) =~= b@.skip(i + 1));
        i += 1;
    }
    i
}

/// The event that a line carries.
pub fn read_line(line: &[u8]) -> (r: Option<Json>)
    ensures
        match r {
            Some(event) => line_event(line@) == Some(event@),
            None => line_event(line@) is None,
        },
{
    let body: &[u8] = if line.len() > 0 && line[line.len() - 1] == 13 {
        slice_subrange(line, 0, line.len() - 1)
    } else {
        line
    };
    match from_utf8(body) {
        Some(s) => {
            let chars = chars_of(s);
            match strip_prefix(chars.as_slice(), "data: ") {
                Some(data) => if same(data, chars_of("[DONE]").as_slice()) {
                    None
                } else {
                    parse_str(text_of(data).as_str())
                },
                None => None,
            }
        },
        None => None,
    }
}

/// Takes a count out of an event's `usage`.
fn read_count(event: &Json, key: &str, before: u64) -> (r: u64)
    ensures
        r == or_before(event_count(event@, key@), before),
{
    match event.get("usage") {
        Some(usage) => match usage.get(key) {
            Some(count) => match count.as_u64() {
                Some(n) => n,
                None => before,
            },
            None => before,
        },
        None => before,
    }
}

/// Takes in an event: gives the piece of the answer that it holds, and keeps its
/// counts.
pub fn read_event(event: &Json, tokens: &mut (u64, u64)) -> (r: Option<String>)
    ensures
        match r {
            Some(s) => event_delta(event@) == Some(s@),
            None => event_delta(event@) is None,
        },
        *final(tokens) == event_tokens(event@, *old(tokens)),
{
    let path: [&str; 4] = ["choices", "0", "delta", "content"];
    proof {
        assert(crate::json::tokens(path@) =~= delta_path());
    }
    let prompt: u64 = read_count(event, "prompt_tokens", tokens.0);
    let completion: u64 = read_count(event, "completion_tokens", tokens.1);
    *tokens = (prompt, completion);
    match event.at(path.as_slice()) {
        Some(content) => match content.as_str() {
            Some(s) => if s.as_str().is_empty() {
                None
            } else {
                Some(s.clone())
            },
            None => None,
        },
        None => None,
    }
}

/// A piece of the answer that is to be handed on.
#[derive(Debug)]
pub struct Piece {
    pub text: String,
    /// The token counts once it has been taken.
    pub tokens: (u64, u64),
}

/// Reads the lines in `buf` behind `cursor` that have ended, up to the first that
/// carries a piece of the answer, and keeps the last token counts. Gives that piece;
/// the counts of its own line are for the caller to keep, once the piece has been
/// taken. Where no line carries one, stops before a line that has not ended, so that
/// more bytes can follow, and cuts the buffer off once the cursor is far in.
pub fn process_sse(buf: &mut Vec<u8>, cursor: &mut usize, tokens: &mut (u64, u64)) -> (r: Option<
    Piece,
>)
    requires
        *old(cursor) <= old(buf)@.len() || *old(cursor) <= COMPACT_AFTER,
    ensures
        unread(final(buf)@, *final(cursor) as int) == past_first(
            unread(old(buf)@, *old(cursor) as int),
        ),
        match r {
            Some(piece) => {
                let b = unread(old(buf)@, *old(cursor) as int);
                &&& first_delta(b) == Some(piece.text@)
                &&& piece.tokens == tokens_past_first(b, *old(tokens))
                &&& *final(tokens) == tokens_before_first(b, *old(tokens))
                &&& final(buf)@ == old(buf)@
                &&& *final(cursor) == *old(cursor) + b.len() - past_first(b).len()
            },
            None => {
                let b = unread(old(buf)@, *old(cursor) as int);
                let end = read_to(old(buf)@, *old(cursor) as int);
                &&& first_delta(b) is None
                &&& *final(tokens) == tokens_in(b, *old(tokens))
                &&& end <= COMPACT_AFTER ==> final(buf)@ == old(buf)@ && *final(cursor) == end
                &&& end > COMPACT_AFTER ==> final(buf)@ == old(buf)@.skip(end) && *final(cursor)
                    == 0
            },
        },
{
    let ghost all = buf@;
    let ghost start = *cursor as int;
    let ghost before = *tokens;
    if *cursor < buf.len() {
        let mut end: usize = find_newline(buf, *cursor);
        while end < buf.len()
            invariant
                buf@ == all,
                start <= *cursor <= end <= all.len(),
                end == *cursor + newline(all.skip(*cursor as int)),
                first_delta(all.skip(*cursor as int)) == first_delta(all.skip(start)),
                past_first(all.skip(*cursor as int)) == past_first(all.skip(start)),
                tokens_before_first(all.skip(*cursor as int), *tokens) == tokens_before_first(
                    all.skip(start),
                    before,
                ),
                tokens_past_first(all.skip(*cursor as int), *tokens) == tokens_past_first(
                    all.skip(start),
                    before,
                ),
                start < all.len(),
                start == *old(cursor),
                all == old(buf)@,
                before == *old(tokens),
            decreases all.len() - *cursor,
        {
            let ghost rest = all.skip(*cursor as int);
            let line = slice_subrange(buf.as_slice(), *cursor, end);
            assert(line@ =~= rest.take(newline(rest) as int));
            let event = read_line(line);
            *cursor = end + 1;
            assert(rest.skip(newline(rest) as int + 1) =~= all.skip(*cursor as int));
            if let Some(e) = event {
                let mut counts: (u64, u64) = *tokens;
                if let Some(text) = read_event(&e, &mut counts) {
                    assert(unread(all, *cursor as int) =~= all.skip(*cursor as int));
                    return Some(Piece { text, tokens: counts });
                }
                *tokens = counts;
            }
            end = find_newline(buf, *cursor);
        }
    }
    proof {
        law_next_piece(unread(all, start), before);
    }
    if *cursor > COMPACT_AFTER {
        let rest = buf.split_off(*cursor);
        *buf = rest;
        *cursor = 0;
    }
    None
}

// -- Reading a stream --

/// What came of the last step: of a read from the endpoint, or of a piece of the
/// answer that was handed on. An error of the caller's own has the type `E`.
#[derive(Debug)]
pub enum StreamEvent<E> {
    /// A read gave bytes; none at the end of the stream.
    Data(Vec<u8>),
    /// The request's total timeout ran out.
    TimedOut,
    /// The transport stalled.
    WouldBlock,
    /// The transport failed otherwise.
    Failed(E),
    /// The piece that was handed on has been taken.
    Taken,
    /// The piece that was handed on has been refused.
    Refused(E),
}

/// What is to be done next.
#[derive(Debug)]
pub enum StreamStep<E> {
    /// Read from the endpoint.
    Read,
    /// Hand this piece of the answer on.
    Forward(String),
    /// The stream has ended, with these prompt and completion token counts; zero
    /// where the endpoint left them out.
    Done(u64, u64),
    /// Give up.
    Fail(EngineError),
    /// Give up with the caller's own error, as it is.
    Pass(E),
    /// Nothing: the stream has ended or has been given up before.
    Ended,
}

/// What is to be done next, as the contracts speak of it.
pub enum Outcome<E> {
    Read,
    Forward(Seq<char>),
    Done(u64, u64),
    Fail(EngineError),
    Pass(E),
    Ended,
}

impl<E> View for StreamStep<E> {
    type V = Outcome<E>;

    open spec fn view(&self) -> Outcome<E> {
        match *self {
            StreamStep::Read => Outcome::Read,
            StreamStep::Forward(s) => Outcome::Forward(s@),
            StreamStep::Done(tokens_in, tokens_out) => Outcome::Done(tokens_in, tokens_out),
            StreamStep::Fail(e) => Outcome::Fail(e),
            StreamStep::Pass(e) => Outcome::Pass(e),
            StreamStep::Ended => Outcome::Ended,
        }
    }
}

/// A stream that is being read.
#[derive(Debug)]
pub struct SseStream {
    buf: Vec<u8>,
    cursor: usize,
    tokens: (u64, u64),
    held: Option<(u64, u64)>,
    ended: bool,
}

/// How far a stream has been read.
pub struct StreamState {
    /// The bytes that have not been read yet.
    pub pending: Seq<u8>,
    /// The token counts so far.
    pub tokens: (u64, u64),
    /// Where a piece of the answer has been handed on and not yet answered for, the
    /// token counts once it is taken.
    pub held: Option<(u64, u64)>,
    /// Whether the stream has ended or has been given up.
    pub ended: bool,
}

impl View for SseStream {
    type V = StreamState;

    closed spec fn view(&self) -> StreamState {
        StreamState {
            pending: unread(self.buf@, self.cursor as int),
            tokens: self.tokens,
            held: self.held,
            ended: self.ended,
        }
    }
}

/// A stream of which nothing has been read.
pub open spec fn unread_stream() -> StreamState {
    StreamState { pending: Seq::empty(), tokens: (0, 0), held: None, ended: false }
}

/// A stream that has been read up to the next piece of the answer, or as far as lines
/// have ended.
pub open spec fn advanced(s: StreamState) -> StreamState {
    StreamState {
        pending: past_first(s.pending),
        tokens: tokens_before_first(s.pending, s.tokens),
        held: if first_delta(s.pending) is Some {
            Some(tokens_past_first(s.pending, s.tokens))
        } else {
            None
        },
        ended: s.ended,
    }
}

/// A stream after more bytes, up to the first piece of the answer.
pub open spec fn arrived(s: StreamState, chunk: Seq<u8>) -> StreamState {
    advanced(StreamState { pending: s.pending + chunk, ..s })
}

/// A stream after the piece that was handed on has been taken, up to the next one.
pub open spec fn taken(s: StreamState) -> StreamState {
    match s.held {
        Some(tokens) => advanced(StreamState { tokens, held: None, ..s }),
        None => s,
    }
}

/// A stream that has ended or has been given up.
pub open spec fn given_up(s: StreamState) -> StreamState {
    StreamState { held: None, ended: true, ..s }
}

/// What is to be done about the next piece of the answer, where there is one.
pub open spec fn hand_on<E>(delta: Option<Seq<char>>) -> Outcome<E> {
    match delta {
        Some(d) => Outcome::Forward(d),
        None => Outcome::Read,
    }
}

/// Whether an event answers for a piece that was handed on.
pub open spec fn is_answer<E>(event: StreamEvent<E>) -> bool {
    event is Taken || event is Refused
}

/// Whether an event can follow: a piece that was handed on is answered for before
/// anything else, and only such a piece is.
pub open spec fn can_follow<E>(s: StreamState, event: StreamEvent<E>) -> bool {
    s.ended || (is_answer(event) <==> s.held is Some)
}

/// A stream after an event.
pub open spec fn after<E>(s: StreamState, event: StreamEvent<E>) -> StreamState {
    if s.ended {
        s
    } else {
        match event {
            StreamEvent::Data(chunk) => if chunk@.len() == 0 {
                given_up(s)
            } else {
                arrived(s, chunk@)
            },
            StreamEvent::Taken => taken(s),
            _ => given_up(s),
        }
    }
}

/// What is to be done after an event.
pub open spec fn outcome<E>(s: StreamState, event: StreamEvent<E>) -> Outcome<E> {
    if s.ended {
        Outcome::Ended
    } else {
        match event {
            StreamEvent::Data(chunk) => if chunk@.len() == 0 {
                Outcome::Done(s.tokens.0, s.tokens.1)
            } else {
                hand_on(first_delta(s.pending + chunk@))
            },
            StreamEvent::TimedOut => Outcome::Fail(EngineError::Stalled),
            StreamEvent::WouldBlock => Outcome::Fail(EngineError::Stalled),
            StreamEvent::Failed(e) => Outcome::Pass(e),
            StreamEvent::Taken => hand_on(first_delta(s.pending)),
            StreamEvent::Refused(e) => Outcome::Pass(e),
        }
    }
}

impl SseStream {
    /// Whether the cursor lies within the buffer.
    pub closed spec fn wf(&self) -> bool {
        self.cursor <= self.buf@.len()
    }

    /// A stream of which nothing has been read.
    pub fn new() -> (r: SseStream)
        ensures
            r.wf(),
            r@ == unread_stream(),
    {
        SseStream { buf: Vec::new(), cursor: 0, tokens: (0, 0), held: None, ended: false }
    }

    /// Whether the stream has ended or has been given up.
    pub fn has_ended(&self) -> (r: bool)
        ensures
            r == self@.ended,
    {
        self.ended
    }

    /// Gives the stream up.
    pub fn give_up(&mut self)
        requires
            old(self).wf(),
        ensures
            final(self).wf(),
            final(self)@ == given_up(old(self)@),
    {
        self.held = None;
        self.ended = true;
    }

    /// Reads up to the next piece of the answer, or as far as lines have ended.
    fn advance<E>(&mut self) -> (r: StreamStep<E>)
        requires
            old(self).wf(),
        ensures
            final(self).wf(),
            final(self)@ == advanced(old(self)@),
            r@ == hand_on::<E>(first_delta(old(self)@.pending)),
    {
        proof {
            law_next_piece(self@.pending, self.tokens);
        }
        match process_sse(&mut self.buf, &mut self.cursor, &mut self.tokens) {
            Some(piece) => {
                self.held = Some(piece.tokens);
                StreamStep::Forward(piece.text)
            },
            None => {
                self.held = None;
                StreamStep::Read
            },
        }
    }
}

/// Goes on after a read from the endpoint, or after a piece of the answer was handed
/// on. A piece that is refused, or a transport that fails, ends the stream with the
/// caller's own error.
pub fn read_sse_stream<E>(stream: &mut SseStream, event: StreamEvent<E>) -> (r: StreamStep<E>)
    requires
        old(stream).wf(),
        can_follow(old(stream)@, event),
    ensures
        final(stream).wf(),
        r@ == outcome(old(stream)@, event),
        final(stream)@ == after(old(stream)@, event),
{
    if stream.ended {
        return StreamStep::Ended;
    }
    match event {
        StreamEvent::Data(chunk) => if chunk.len() == 0 {
            let (tokens_in, tokens_out) = stream.tokens;
            stream.give_up();
            StreamStep::Done(tokens_in, tokens_out)
        } else {
            let ghost pending = stream@.pending;
            stream.buf.extend_from_slice(chunk.as_slice());
            assert(stream@.pending =~= pending + chunk@);
            stream.advance()
        },
        StreamEvent::TimedOut => {
            stream.give_up();
            StreamStep::Fail(EngineError::Stalled)
        },
        StreamEvent::WouldBlock => {
            stream.give_up();
            StreamStep::Fail(EngineError::Stalled)
        },
        StreamEvent::Failed(e) => {
            stream.give_up();
            StreamStep::Pass(e)
        },
        StreamEvent::Taken => {
            if let Some(tokens) = stream.held {
                stream.tokens = tokens;
            }
            stream.advance()
        },
        StreamEvent::Refused(e) => {
            stream.give_up();
            StreamStep::Pass(e)
        },
    }
}

// -- Laws --

/// Bytes hold their pieces of the answer one behind the other: the first one, and then
/// those of what follows its line. Where they hold none, all lines that have ended are
/// read at once.
pub proof fn law_next_piece(b: Seq<u8>, before: (u64, u64))
    ensures
        match first_delta(b) {
            Some(delta) => {
                &&& deltas_in(b) == seq![delta] + deltas_in(past_first(b))
                &&& tokens_in(b, before) == tokens_in(
                    past_first(b),
                    tokens_past_first(b, before),
                )
                &&& partial_in(b) == partial_in(past_first(b))
            },
            None => {
                &&& deltas_in(b) == Seq::<Seq<char>>::empty()
                &&& tokens_in(b, before) == tokens_before_first(b, before)
                &&& partial_in(b) == past_first(b)
            },
        },
    decreases b.len(),
{
    let n = newline(b) as int;
    if n < b.len() {
        law_next_piece(b.skip(n + 1), line_tokens(b.take(n), before));
        if line_delta(b.take(n)) is None {
            assert(deltas_in(b) =~= deltas_in(b.skip(n + 1)));
        }
    }
}

/// A stream after more bytes, every piece of the answer in them taken.
pub open spec fn fed(s: StreamState, chunk: Seq<u8>) -> StreamState {
    StreamState {
        pending: partial_in(s.pending + chunk),
        tokens: tokens_in(s.pending + chunk, s.tokens),
        held: None,
        ended: s.ended,
    }
}

/// The pieces of the answer that more bytes complete.
pub open spec fn fed_deltas(s: StreamState, chunk: Seq<u8>) -> Seq<Seq<char>> {
    deltas_in(s.pending + chunk)
}

/// A stream after more bytes of which `k` pieces of the answer have been taken.
pub open spec fn after_taking(s: StreamState, chunk: Seq<u8>, k: nat) -> StreamState
    decreases k,
{
    if k == 0 {
        arrived(s, chunk)
    } else {
        taken(after_taking(s, chunk, (k - 1) as nat))
    }
}

/// The piece of the answer that is handed on after more bytes, once `k` others have
/// been taken.
pub open spec fn handed(s: StreamState, chunk: Seq<u8>, k: nat) -> Option<Seq<char>> {
    if k == 0 {
        first_delta(s.pending + chunk)
    } else {
        first_delta(after_taking(s, chunk, (k - 1) as nat).pending)
    }
}

/// While pieces are being taken, what is left of the bytes holds the others.
proof fn lemma_taking(s: StreamState, chunk: Seq<u8>, k: nat)
    requires
        k < fed_deltas(s, chunk).len(),
    ensures
        handed(s, chunk, k) == Some(fed_deltas(s, chunk)[k as int]),
        ({
            let x = after_taking(s, chunk, k);
            &&& x.held is Some
            &&& x.ended == s.ended
            &&& deltas_in(x.pending) == fed_deltas(s, chunk).skip(k as int + 1)
            &&& tokens_in(x.pending, x.held->0) == tokens_in(s.pending + chunk, s.tokens)
            &&& partial_in(x.pending) == partial_in(s.pending + chunk)
        }),
    decreases k,
{
    if k == 0 {
        let b = s.pending + chunk;
        law_next_piece(b, s.tokens);
        assert(deltas_in(past_first(b)) =~= fed_deltas(s, chunk).skip(1));
    } else {
        lemma_taking(s, chunk, (k - 1) as nat);
        let x = after_taking(s, chunk, (k - 1) as nat);
        law_next_piece(x.pending, x.held->0);
        assert(deltas_in(x.pending)[0] == fed_deltas(s, chunk)[k as int]);
        assert(deltas_in(past_first(x.pending)) =~= deltas_in(x.pending).skip(1));
        assert(fed_deltas(s, chunk).skip(k as int).skip(1) =~= fed_deltas(s, chunk).skip(
            k as int + 1,
        ));
    }
}

/// The pieces of the answer that more bytes complete are handed on one by one, in
/// order, each after the one before has been taken. When all have been taken the
/// stream waits for a read, with all lines that have ended read and counted.
pub proof fn law_pieces_in_turn(s: StreamState, chunk: Seq<u8>, k: nat)
    requires
        k <= fed_deltas(s, chunk).len(),
    ensures
        k < fed_deltas(s, chunk).len() ==> handed(s, chunk, k) == Some(
            fed_deltas(s, chunk)[k as int],
        ) && after_taking(s, chunk, k).held is Some,
        k == fed_deltas(s, chunk).len() ==> handed(s, chunk, k) is None && after_taking(s, chunk, k)
            == fed(s, chunk),
{
    if k < fed_deltas(s, chunk).len() {
        lemma_taking(s, chunk, k);
    } else if k == 0 {
        law_next_piece(s.pending + chunk, s.tokens);
    } else {
        lemma_taking(s, chunk, (k - 1) as nat);
        let x = after_taking(s, chunk, (k - 1) as nat);
        law_next_piece(x.pending, x.held->0);
        assert(deltas_in(x.pending).len() == 0);
    }
}

/// A piece of the answer that is refused is the last: the stream ends with the very
/// error of the refusal. The pieces that were handed on till then, the refused one
/// among them, are the first ones of the answer.
pub proof fn law_refusal_ends<E>(chunks: Seq<Seq<u8>>, chunk: Seq<u8>, k: nat, e: E)
    requires
        k < fed_deltas(all_fed(unread_stream(), chunks), chunk).len(),
    ensures
        ({
            let s = all_fed(unread_stream(), chunks);
            let x = after_taking(s, chunk, k);
            &&& handed(s, chunk, k) == Some(fed_deltas(s, chunk)[k as int])
            &&& can_follow(x, StreamEvent::Refused(e))
            &&& outcome(x, StreamEvent::Refused(e)) == Outcome::Pass(e)
            &&& after(x, StreamEvent::Refused(e)).ended
            &&& (all_deltas(unread_stream(), chunks) + fed_deltas(s, chunk).take(
                k as int + 1,
            )).is_prefix_of(deltas_in(joined(chunks.push(chunk))))
        }),
{
    let s = all_fed(unread_stream(), chunks);
    law_reads_join(chunks);
    lemma_taking(s, chunk, k);
    law_reads_join(chunks.push(chunk));
    assert(chunks.push(chunk).drop_last() =~= chunks);
    let front = all_deltas(unread_stream(), chunks);
    let rest = fed_deltas(s, chunk);
    assert(deltas_in(joined(chunks.push(chunk))) == front + rest);
    assert((front + rest).subrange(0, front.len() as int + k + 1) =~= front + rest.take(k as int + 1));
}

/// Once a stream has ended or has been given up, nothing more is read or handed on,
/// whatever comes.
pub proof fn law_ended_stays<E>(s: StreamState, event: StreamEvent<E>)
    requires
        s.ended,
    ensures
        outcome(s, event) == Outcome::<E>::Ended,
        after(s, event) == s,
{
}

/// The end of the stream, a timeout, a stall, a transport that fails and a refusal all
/// end it; bytes and a piece that is taken do not.
pub proof fn law_what_ends<E>(s: StreamState, event: StreamEvent<E>)
    requires
        !s.ended,
    ensures
        after(s, event).ended <==> !(event is Taken || (event is Data && event->Data_0@.len() > 0)),
{
}

/// The bytes of several reads, one after the other.
pub open spec fn joined(chunks: Seq<Seq<u8>>) -> Seq<u8>
    decreases chunks.len(),
{
    if chunks.len() == 0 {
        Seq::empty()
    } else {
        joined(chunks.drop_last()) + chunks.last()
    }
}

/// A stream after several reads, every piece of the answer taken.
pub open spec fn all_fed(s: StreamState, chunks: Seq<Seq<u8>>) -> StreamState
    decreases chunks.len(),
{
    if chunks.len() == 0 {
        s
    } else {
        fed(all_fed(s, chunks.drop_last()), chunks.last())
    }
}

/// The pieces of the answer that several reads complete, in order.
pub open spec fn all_deltas(s: StreamState, chunks: Seq<Seq<u8>>) -> Seq<Seq<char>>
    decreases chunks.len(),
{
    if chunks.len() == 0 {
        Seq::empty()
    } else {
        all_deltas(s, chunks.drop_last()) + fed_deltas(
            all_fed(s, chunks.drop_last()),
            chunks.last(),
        )
    }
}

/// A first line that has ended stays what it is when more bytes follow.
proof fn lemma_newline_append(a: Seq<u8>, b: Seq<u8>)
    requires
        newline(a) < a.len(),
    ensures
        newline(a + b) == newline(a),
    decreases a.len(),
{
    if a.first() != 10 {
        assert((a + b).skip(1) =~= a.skip(1) + b);
        lemma_newline_append(a.skip(1), b);
    }
}

/// Reading bytes in two goes gives what reading them in one go gives: the same
/// pieces of the answer, the same counts and the same rest.
pub proof fn law_two_reads(a: Seq<u8>, b: Seq<u8>, before: (u64, u64))
    ensures
        deltas_in(a + b) == deltas_in(a) + deltas_in(partial_in(a) + b),
        tokens_in(a + b, before) == tokens_in(partial_in(a) + b, tokens_in(a, before)),
        partial_in(a + b) == partial_in(partial_in(a) + b),
    decreases a.len(),
{
    let n = newline(a) as int;
    if n < a.len() {
        lemma_newline_append(a, b);
        assert((a + b).take(n) =~= a.take(n));
        assert((a + b).skip(n + 1) =~= a.skip(n + 1) + b);
        law_two_reads(a.skip(n + 1), b, line_tokens(a.take(n), before));
        assert(deltas_in(a + b) =~= deltas_in(a) + deltas_in(partial_in(a) + b));
    } else {
        assert(deltas_in(a) + deltas_in(a + b) =~= deltas_in(a + b));
    }
}

/// How the endpoint's bytes are cut into reads makes no difference: the pieces of
/// the answer, the counts and the rest are those of all the bytes together.
pub proof fn law_reads_join(chunks: Seq<Seq<u8>>)
    ensures
        all_deltas(unread_stream(), chunks) == deltas_in(joined(chunks)),
        all_fed(unread_stream(), chunks) == (StreamState {
            pending: partial_in(joined(chunks)),
            tokens: tokens_in(joined(chunks), (0, 0)),
            held: None,
            ended: false,
        }),
    decreases chunks.len(),
{
    if chunks.len() > 0 {
        law_reads_join(chunks.drop_last());
        law_two_reads(joined(chunks.drop_last()), chunks.last(), (0, 0));
    }
}

/// No piece of the answer that is handed on is empty.
pub proof fn law_deltas_are_not_empty(b: Seq<u8>, i: int)
    requires
        0 <= i < deltas_in(b).len(),
    ensures
        deltas_in(b)[i].len() > 0,
    decreases b.len(),
{
    let n = newline(b) as int;
    let first = line_deltas(b.take(n));
    if i >= first.len() {
        law_deltas_are_not_empty(b.skip(n + 1), i - first.len());
    }
}

/// Where the endpoint leaves `usage` out, the counts stay as they were.
pub proof fn law_counts_without_usage(b: Seq<u8>, before: (u64, u64))
    requires
        forall|i: int|
            0 <= i < lines_in(b).len() ==> (#[trigger] line_event(lines_in(b)[i]) matches Some(
                event,
            ) ==> tree_get(event, "usage"@) is None),
    ensures
        tokens_in(b, before) == before,
    decreases b.len(),
{
    let n = newline(b) as int;
    if n < b.len() {
        let rest = b.skip(n + 1);
        assert(lines_in(b)[0] == b.take(n));
        assert forall|i: int| 0 <= i < lines_in(rest).len() implies (#[trigger] line_event(
            lines_in(rest)[i],
        ) matches Some(event) ==> tree_get(event, "usage"@) is None) by {
            assert(lines_in(rest)[i] == lines_in(b)[i + 1]);
            assert(line_event(lines_in(b)[i + 1]) == line_event(lines_in(rest)[i]));
        }
        assert(line_event(lines_in(b)[0]) == line_event(b.take(n)));
        law_counts_without_usage(rest, before);
    }
}

/// A line that has not ended says nothing yet: it adds no piece of the answer and no
/// count, and all of it is kept.
pub proof fn law_unended_line_waits(line: Seq<u8>, before: (u64, u64))
    requires
        !line.contains(10),
    ensures
        deltas_in(line) == Seq::<Seq<char>>::empty(),
        tokens_in(line, before) == before,
        partial_in(line) == line,
{
    lemma_newline_absent(line);
}

/// Lines are read one by one: a line that has ended says what it says, and then
/// comes what follows it.
pub proof fn law_line_by_line(line: Seq<u8>, rest: Seq<u8>, before: (u64, u64))
    requires
        !line.contains(10),
    ensures
        deltas_in(line + seq![10u8] + rest) == line_deltas(line) + deltas_in(rest),
        tokens_in(line + seq![10u8] + rest, before) == tokens_in(rest, line_tokens(line, before)),
        partial_in(line + seq![10u8] + rest) == partial_in(rest),
{
    let b = line + seq![10u8] + rest;
    lemma_newline_first(line, rest);
    assert(b.take(line.len() as int) =~= line);
    assert(b.skip(line.len() as int + 1) =~= rest);
}

/// The line feed behind a line without one is the first.
proof fn lemma_newline_first(line: Seq<u8>, rest: Seq<u8>)
    requires
        !line.contains(10),
    ensures
        newline(line + seq![10u8] + rest) == line.len(),
    decreases line.len(),
{
    let b = line + seq![10u8] + rest;
    if line.len() > 0 {
        assert(line.contains(line.first()));
        assert forall|x: u8| line.skip(1).contains(x) implies line.contains(x) by {
            let i = choose|i: int| 0 <= i < line.skip(1).len() && line.skip(1)[i] == x;
            assert(line[i + 1] == x);
        }
        assert(b.skip(1) =~= line.skip(1) + seq![10u8] + rest);
        lemma_newline_first(line.skip(1), rest);
    }
}

/// A line may end with a carriage return and a line feed, or with a line feed alone.
pub proof fn law_carriage_return(line: Seq<u8>)
    requires
        line.len() > 0 ==> line.last() != 13,
    ensures
        line_event(line.push(13)) == line_event(line),
{
    assert(line.push(13).drop_last() =~= line);
}

/// Without a line feed its place is the length.
proof fn lemma_newline_absent(b: Seq<u8>)
    requires
        !b.contains(10),
    ensures
        newline(b) == b.len(),
    decreases b.len(),
{
    if b.len() > 0 {
        assert(b.contains(b.first()));
        assert forall|x: u8| b.skip(1).contains(x) implies b.contains(x) by {
            let i = choose|i: int| 0 <= i < b.skip(1).len() && b.skip(1)[i] == x;
            assert(b[i + 1] == x);
        }
        lemma_newline_absent(b.skip(1));
    }
}

/// The place of the first line feed is where a line feed stands and none before it; where
/// there is none, it is the length.
pub proof fn law_newline(b: Seq<u8>)
    ensures
        newline(b) <= b.len(),
        newline(b) < b.len() ==> b[newline(b) as int] == 10,
        forall|k: int| 0 <= k < newline(b) ==> #[trigger] b[k] != 10,
    decreases b.len(),
{
    if b.len() > 0 && b.first() != 10 {
        law_newline(b.skip(1));
        assert forall|k: int| 0 <= k < newline(b) implies #[trigger] b[k] != 10 by {
            if k > 0 {
                assert(b.skip(1)[k - 1] == b[k]);
            }
        }
    }
}

/// A line of UTF-8 that starts with `data: ` carries the event that the JSON behind it
/// writes, all of it, unless that is `[DONE]`. The line may have a carriage return behind
/// it; a second one belongs to the data.
pub proof fn law_data_line(line: Seq<u8>, data: Seq<char>)
    requires
        valid_utf8(line),
        decode_utf8(line) == "data: "@ + data,
    ensures
        data != "[DONE]"@ ==> line_event(line.push(13)) == text_tree(data),
        data == "[DONE]"@ ==> line_event(line.push(13)) is None,
        data != "[DONE]"@ && line.last() != 13 ==> line_event(line) == text_tree(data),
        data == "[DONE]"@ && line.last() != 13 ==> line_event(line) is None,
{
    law_after_prefix(decode_utf8(line), "data: "@, data);
    assert(line.push(13).drop_last() =~= line);
}

/// A line that is not UTF-8, or that does not start with `data: `, carries no event.
pub proof fn law_other_line(line: Seq<u8>)
    requires
        valid_utf8(line) ==> forall|data: Seq<char>|
            decode_utf8(line) != #[trigger] ("data: "@ + data),
    ensures
        line_event(line.push(13)) is None,
        line.len() == 0 || line.last() != 13 ==> line_event(line) is None,
{
    assert(line.push(13).drop_last() =~= line);
    if valid_utf8(line) {
        law_after_prefix(decode_utf8(line), "data: "@, Seq::empty());
        if let Some(data) = after_prefix(decode_utf8(line), "data: "@) {
            assert(decode_utf8(line) == "data: "@ + data);
        }
    }
}

/// The piece of an event is its `choices[0].delta.content`, whole and whatever characters
/// it holds, white space alone included. There is none only where nothing is there, or
/// something that is no text, or the empty text.
pub proof fn law_event_piece(event: Tree, s: Seq<char>)
    ensures
        tree_at(event, seq!["choices"@, "0"@, "delta"@, "content"@]) == Some(Tree::Text(s))
            && s.len() > 0 ==> event_delta(event) == Some(s),
        tree_at(event, seq!["choices"@, "0"@, "delta"@, "content"@]) == Some(Tree::Text(s))
            && s.len() == 0 ==> event_delta(event) is None,
        !(tree_at(event, seq!["choices"@, "0"@, "delta"@, "content"@]) matches Some(Tree::Text(_)))
            ==> event_delta(event) is None,
{
    assert(delta_path() =~= seq!["choices"@, "0"@, "delta"@, "content"@]);
}

/// The same of an event that is written out: an object whose `choices` is an array, whose
/// first item has a `delta` with a text as its `content`.
pub proof fn law_written_out_piece(
    event: Map<Seq<char>, Tree>,
    choices: Seq<Tree>,
    choice: Map<Seq<char>, Tree>,
    delta: Map<Seq<char>, Tree>,
    s: Seq<char>,
)
    requires
        event.contains_key("choices"@),
        event["choices"@] == Tree::Array(choices),
        choices.len() > 0,
        choices[0] == Tree::Object(choice),
        choice.contains_key("delta"@),
        choice["delta"@] == Tree::Object(delta),
        delta.contains_key("content"@),
        delta["content"@] == Tree::Text(s),
        s.len() > 0,
    ensures
        event_delta(Tree::Object(event)) == Some(s),
{
    reveal_strlit("0");
    assert("0"@ =~= written(0));
    let nowhere = Seq::<Seq<char>>::empty();
    let p3 = seq!["content"@] + nowhere;
    let p2 = seq!["delta"@] + p3;
    let p1 = seq!["0"@] + p2;
    law_path_through_object(Tree::Text(s), delta, "content"@, nowhere);
    law_path_through_object(Tree::Null, choice, "delta"@, p3);
    law_path_through_array(choices, 0, Tree::Null, "0"@, p2);
    law_path_through_object(Tree::Null, event, "choices"@, p1);
    assert(seq!["choices"@] + p1 =~= seq!["choices"@, "0"@, "delta"@, "content"@]);
    law_event_piece(Tree::Object(event), s);
}

/// The counts after an event are those that its `usage` gives, each on its own: the
/// prompt's by `prompt_tokens` and the completion's by `completion_tokens`. One that it
/// does not give as a natural number stays as it was.
pub proof fn law_event_counts(event: Tree, usage: Tree, n: u64, before: (u64, u64))
    ensures
        tree_get(event, "usage"@) is None ==> event_tokens(event, before) == before,
        tree_get(event, "usage"@) == Some(usage) ==> {
            &&& tree_get(usage, "prompt_tokens"@) == Some(Tree::Natural(n)) ==> event_tokens(
                event,
                before,
            ).0 == n
            &&& tree_get(usage, "completion_tokens"@) == Some(Tree::Natural(n)) ==> event_tokens(
                event,
                before,
            ).1 == n
            &&& !(tree_get(usage, "prompt_tokens"@) matches Some(Tree::Natural(_)))
                ==> event_tokens(event, before).0 == before.0
            &&& !(tree_get(usage, "completion_tokens"@) matches Some(Tree::Natural(_)))
                ==> event_tokens(event, before).1 == before.1
        },
{
}

/// A line says what its event says, and one without an event says nothing.
pub proof fn law_line_says(line: Seq<u8>, before: (u64, u64))
    ensures
        line_event(line) is None ==> line_delta(line) is None && line_deltas(line).len() == 0
            && line_tokens(line, before) == before,
        line_event(line) matches Some(event) ==> {
            &&& line_delta(line) == event_delta(event)
            &&& line_tokens(line, before) == event_tokens(event, before)
            &&& event_delta(event) is None ==> line_deltas(line).len() == 0
            &&& event_delta(event) matches Some(d) ==> line_deltas(line).len() == 1
                && line_deltas(line)[0] == d
        },
{
}

/// Every content that is not empty reaches the answer: the bytes of a line that carries
/// one hand it on whole, and then comes what follows the line. This holds of white space,
/// line feeds and any other characters alike.
pub proof fn law_content_is_handed_on(
    line: Seq<u8>,
    data: Seq<char>,
    event: Tree,
    s: Seq<char>,
    rest: Seq<u8>,
)
    requires
        !line.contains(10),
        line.last() != 13,
        valid_utf8(line),
        decode_utf8(line) == "data: "@ + data,
        data != "[DONE]"@,
        text_tree(data) == Some(event),
        tree_at(event, seq!["choices"@, "0"@, "delta"@, "content"@]) == Some(Tree::Text(s)),
        s.len() > 0,
    ensures
        deltas_in(line + seq![10u8] + rest) == seq![s] + deltas_in(rest),
{
    law_data_line(line, data);
    law_event_piece(event, s);
    law_line_by_line(line, rest, (0, 0));
}

/// The lines that have ended are what stands before each line feed.
pub proof fn law_lines_in(line: Seq<u8>, rest: Seq<u8>)
    requires
        !line.contains(10),
    ensures
        lines_in(line + seq![10u8] + rest) == seq![line] + lines_in(rest),
        lines_in(line) == Seq::<Seq<u8>>::empty(),
{
    let b = line + seq![10u8] + rest;
    lemma_newline_first(line, rest);
    lemma_newline_absent(line);
    assert(b.take(line.len() as int) =~= line);
    assert(b.skip(line.len() as int + 1) =~= rest);
}

/// Reading stops right behind the first line that carries a piece of the answer: that
/// piece is given, the counts are those before the line, and the line's own counts come
/// with the piece. A line that carries none is read on past, and its counts kept.
pub proof fn law_stops_behind_piece(line: Seq<u8>, rest: Seq<u8>, before: (u64, u64))
    requires
        !line.contains(10),
    ensures
        line_delta(line) matches Some(d) ==> {
            let b = line + seq![10u8] + rest;
            &&& first_delta(b) == Some(d)
            &&& past_first(b) == rest
            &&& tokens_before_first(b, before) == before
            &&& tokens_past_first(b, before) == line_tokens(line, before)
        },
        line_delta(line) is None ==> {
            let b = line + seq![10u8] + rest;
            let now = line_tokens(line, before);
            &&& first_delta(b) == first_delta(rest)
            &&& past_first(b) == past_first(rest)
            &&& tokens_before_first(b, before) == tokens_before_first(rest, now)
            &&& tokens_past_first(b, before) == tokens_past_first(rest, now)
        },
        first_delta(line) is None,
        past_first(line) == line,
        tokens_before_first(line, before) == before,
{
    let b = line + seq![10u8] + rest;
    lemma_newline_first(line, rest);
    lemma_newline_absent(line);
    assert(b.take(line.len() as int) =~= line);
    assert(b.skip(line.len() as int + 1) =~= rest);
}

/// What is unread is what stands behind the cursor, and reading takes the cursor up to
/// the line that has not ended, so that just that line stays unread.
pub proof fn law_unread(done: Seq<u8>, left: Seq<u8>)
    ensures
        unread(done + left, done.len() as int) == left,
        read_to(done + left, done.len() as int) + partial_in(left).len() == done.len() + left.len(),
{
    assert(unread(done + left, done.len() as int) =~= left);
}

/// Bytes that arrive hand on the first piece of the answer that they complete; where they
/// complete none, more are to be read.
pub proof fn law_bytes_arrive<E>(s: StreamState, event: StreamEvent<E>, chunk: Seq<u8>)
    requires
        !s.ended,
        event matches StreamEvent::Data(v) && v@ == chunk,
        chunk.len() > 0,
    ensures
        deltas_in(s.pending + chunk).len() > 0 ==> outcome(s, event) == Outcome::<E>::Forward(
            deltas_in(s.pending + chunk)[0],
        ),
        deltas_in(s.pending + chunk).len() == 0 ==> outcome(s, event) == Outcome::<E>::Read,
        after(s, event) == after_taking(s, chunk, 0),
        s.held is None ==> can_follow(s, event),
{
    law_next_piece(s.pending + chunk, s.tokens);
}

/// A piece that is taken brings the next one of those that the bytes completed, none left
/// out and none twice; behind the last one more bytes are to be read, and all that the
/// ended lines say has been taken in.
pub proof fn law_piece_taken<E>(s: StreamState, chunk: Seq<u8>, k: nat)
    requires
        !s.ended,
        k < deltas_in(s.pending + chunk).len(),
    ensures
        can_follow(after_taking(s, chunk, k), StreamEvent::<E>::Taken),
        k + 1 < deltas_in(s.pending + chunk).len() ==> outcome(
            after_taking(s, chunk, k),
            StreamEvent::<E>::Taken,
        ) == Outcome::<E>::Forward(deltas_in(s.pending + chunk)[k as int + 1]),
        k + 1 == deltas_in(s.pending + chunk).len() ==> outcome(
            after_taking(s, chunk, k),
            StreamEvent::<E>::Taken,
        ) == Outcome::<E>::Read,
        after(after_taking(s, chunk, k), StreamEvent::<E>::Taken) == after_taking(s, chunk, k + 1),
        k + 1 == deltas_in(s.pending + chunk).len() ==> {
            let end = after_taking(s, chunk, k + 1);
            &&& end.pending == partial_in(s.pending + chunk)
            &&& end.tokens == tokens_in(s.pending + chunk, s.tokens)
            &&& end.held is None
            &&& !end.ended
        },
{
    lemma_taking(s, chunk, k);
    law_pieces_in_turn(s, chunk, k + 1);
}

/// The end of a stream gives the counts of all the bytes that came, however they were cut
/// into reads; zero each where no line gave them.
pub proof fn law_end_gives_counts<E>(chunks: Seq<Seq<u8>>, event: StreamEvent<E>)
    requires
        event matches StreamEvent::Data(v) && v@.len() == 0,
    ensures
        outcome(all_fed(unread_stream(), chunks), event) == Outcome::<E>::Done(
            tokens_in(joined(chunks), (0, 0)).0,
            tokens_in(joined(chunks), (0, 0)).1,
        ),
        after(all_fed(unread_stream(), chunks), event).ended,
{
    law_reads_join(chunks);
}

/// A timeout and a stall fail as such; an error of the transport and a refusal come back
/// as they are.
pub proof fn law_failures<E>(s: StreamState, e: E)
    requires
        !s.ended,
    ensures
        outcome(s, StreamEvent::<E>::TimedOut) == Outcome::<E>::Fail(EngineError::Stalled),
        outcome(s, StreamEvent::<E>::WouldBlock) == Outcome::<E>::Fail(EngineError::Stalled),
        outcome(s, StreamEvent::Failed(e)) == Outcome::Pass(e),
        outcome(s, StreamEvent::Refused(e)) == Outcome::Pass(e),
{
}

/// What a step asks for: to hand on the very text that it holds, to end with the very
/// counts, or to give up with the very error.
pub proof fn law_step<E>(text: String, tokens_in: u64, tokens_out: u64, error: EngineError, e: E)
    ensures
        StreamStep::<E>::Read@ == Outcome::<E>::Read,
        StreamStep::<E>::Forward(text)@ == Outcome::<E>::Forward(text@),
        StreamStep::<E>::Done(tokens_in, tokens_out)@ == Outcome::<E>::Done(tokens_in, tokens_out),
        StreamStep::<E>::Fail(error)@ == Outcome::<E>::Fail(error),
        StreamStep::Pass(e)@ == Outcome::Pass(e),
        StreamStep::<E>::Ended@ == Outcome::<E>::Ended,
{
}

} // verus!
