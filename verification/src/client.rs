//! The decisions of a client session: command tags, the framing of responses in a
//! byte stream, the encoding of requests, and the completion of a command.

use vstd::prelude::*;
use vstd::string::StringExecFns;
use crate::parser::base::{iresult_is, Needed, ParseError};
use crate::parser::response::{parse_response, spec_response};
use crate::types::{Request, RequestId, Response, State};
use crate::types::model::SpecResponse;

verus! {

// ----- command tags -----

/// The digit character of `d`.
pub open spec fn digit_char(d: nat) -> char {
    if d == 0 { '0' }
    else if d == 1 { '1' }
    else if d == 2 { '2' }
    else if d == 3 { '3' }
    else if d == 4 { '4' }
    else if d == 5 { '5' }
    else if d == 6 { '6' }
    else if d == 7 { '7' }
    else if d == 8 { '8' }
    else { '9' }
}

/// The tag of the `n`th command: "A" and the last four decimal digits of `n`.
pub open spec fn spec_tag_of(n: nat) -> Seq<char> {
    let m = n % 10000;
    seq!['A', digit_char(m / 1000), digit_char(m / 100 % 10), digit_char(m / 10 % 10), digit_char(m % 10)]
}

/// The digit character of `d` is the character numbered `48 + d`.
pub proof fn lemma_digit_char(d: nat)
    requires
        d < 10,
    ensures
        digit_char(d) as u32 == 48 + d,
{
}

proof fn lemma_four_digits(x: int)
    requires
        0 <= x < 10000,
    ensures
        x == 1000 * (x / 1000) + 100 * (x / 100 % 10) + 10 * (x / 10 % 10) + x % 10,
        0 <= x / 1000 < 10,
{
    assert(x == 1000 * (x / 1000) + 100 * (x / 100 % 10) + 10 * (x / 10 % 10) + x % 10)
        by (nonlinear_arith)
        requires
            0 <= x < 10000,
    ;
}

/// Tags repeat only every ten thousand commands: of any ten thousand commands in a row,
/// no two have the same tag.
pub proof fn lemma_tags_distinct(n: nat, m: nat)
    requires
        n != m,
        n < m + 10000,
        m < n + 10000,
    ensures
        spec_tag_of(n) != spec_tag_of(m),
{
    let x = n % 10000;
    let y = m % 10000;
    if spec_tag_of(n) == spec_tag_of(m) {
        lemma_four_digits(x as int);
        lemma_four_digits(y as int);
        assert(spec_tag_of(n)[1] == spec_tag_of(m)[1]);
        assert(spec_tag_of(n)[2] == spec_tag_of(m)[2]);
        assert(spec_tag_of(n)[3] == spec_tag_of(m)[3]);
        assert(spec_tag_of(n)[4] == spec_tag_of(m)[4]);
        lemma_digit_char(x / 1000);
        lemma_digit_char(y / 1000);
        lemma_digit_char(x / 100 % 10);
        lemma_digit_char(y / 100 % 10);
        lemma_digit_char(x / 10 % 10);
        lemma_digit_char(y / 10 % 10);
        lemma_digit_char(x % 10);
        lemma_digit_char(y % 10);
        assert(x == y);
        vstd::arithmetic::div_mod::lemma_fundamental_div_mod(n as int, 10000);
        vstd::arithmetic::div_mod::lemma_fundamental_div_mod(m as int, 10000);
        assert(n == m) by (nonlinear_arith)
            requires
                n == 10000 * (n / 10000) + x,
                m == 10000 * (m / 10000) + y,
                x == y,
                n < m + 10000,
                m < n + 10000,
        ;
    }
}

/// The tag of a command and that of the command ten thousand later are the same.
pub proof fn lemma_tag_period(n: nat)
    ensures
        spec_tag_of(n + 10000) == spec_tag_of(n),
{
    assert((n + 10000) % 10000 == n % 10000);
}

fn digit_str(d: u64) -> (r: &'static str)
    requires
        d < 10,
    ensures
        r@ == seq![digit_char(d as nat)],
{
    proof {
        reveal_strlit("0");
        reveal_strlit("1");
        reveal_strlit("2");
        reveal_strlit("3");
        reveal_strlit("4");
        reveal_strlit("5");
        reveal_strlit("6");
        reveal_strlit("7");
        reveal_strlit("8");
        reveal_strlit("9");
    }
    match d {
        0 => "0",
        1 => "1",
        2 => "2",
        3 => "3",
        4 => "4",
        5 => "5",
        6 => "6",
        7 => "7",
        8 => "8",
        _ => "9",
    }
}

/// Hands out the tags of a session's commands.
pub struct IdGenerator {
    next: u64,
}

impl IdGenerator {
    /// How many tags were handed out.
    pub closed spec fn count(&self) -> nat {
        self.next as nat
    }

    pub fn new() -> (r: Self)
        ensures
            r.count() == 0,
    {
        IdGenerator { next: 0 }
    }

    /// The next tag: the count goes up by one, and the tag is "A" and the last four
    /// digits of the new count. There is always one.
    pub fn next(&mut self) -> (r: Option<RequestId>)
        requires
            old(self).count() < u64::MAX,
        ensures
            final(self).count() == old(self).count() + 1,
            r matches Some(id) && id.0@ == spec_tag_of(final(self).count()),
    {
        Some(self.advance())
    }

    fn advance(&mut self) -> (r: RequestId)
        requires
            old(self).count() < u64::MAX,
        ensures
            final(self).count() == old(self).count() + 1,
            r.0@ == spec_tag_of(final(self).count()),
    {
        self.next = self.next + 1;
        let m = self.next % 10000;
        let mut t = String::from_str("A");
        t.append(digit_str(m / 1000));
        t.append(digit_str(m / 100 % 10));
        t.append(digit_str(m / 10 % 10));
        t.append(digit_str(m % 10));
        proof {
            reveal_strlit("A");
            assert(t@ =~= spec_tag_of(self.next as nat));
        }
        RequestId(t)
    }
}

/// The state of a session and the tags of its commands.
pub struct ClientState {
    state: State,
    request_ids: IdGenerator,
}

impl ClientState {
    /// The state of the session.
    pub closed spec fn session_state(&self) -> State {
        self.state
    }

    /// How many commands were tagged.
    pub closed spec fn commands(&self) -> nat {
        self.request_ids.count()
    }

    /// A session that is not authenticated and has tagged no command.
    pub fn new() -> (r: Self)
        ensures
            r.session_state() == State::NotAuthenticated,
            r.commands() == 0,
    {
        ClientState { state: State::NotAuthenticated, request_ids: IdGenerator::new() }
    }

    /// The state of the session.
    pub fn state(&self) -> (r: State)
        ensures
            r == self.session_state(),
    {
        self.state
    }

    /// How many commands were tagged.
    pub fn command_count(&self) -> (r: u64)
        ensures
            r == self.commands(),
    {
        self.request_ids.next
    }

    /// The tag of the next command.
    pub fn next_request_id(&mut self) -> (r: RequestId)
        requires
            old(self).commands() < u64::MAX,
        ensures
            final(self).commands() == old(self).commands() + 1,
            r.0@ == spec_tag_of(final(self).commands()),
            final(self).session_state() == old(self).session_state(),
    {
        self.request_ids.advance()
    }

    /// Applies the completion of a command: the state that the command leads to, if any.
    pub fn complete(&mut self, next_state: Option<State>)
        ensures
            final(self).session_state() == (match next_state {
                Some(s) => s,
                None => old(self).session_state(),
            }),
            final(self).commands() == old(self).commands(),
    {
        if let Some(s) = next_state {
            self.state = s;
        }
    }
}

// ----- the completion of a command -----

/// The tag that a response completes: that of a tagged response, none for another.
pub open spec fn spec_request_id(r: SpecResponse) -> Option<Seq<char>> {
    match r {
        SpecResponse::Done { tag, .. } => Some(tag),
        _ => None,
    }
}

/// The tag of a tagged response.
pub fn request_id(r: &Response) -> (q: Option<&RequestId>)
    ensures
        q.deep_view() == spec_request_id(r.deep_view()),
{
    match r {
        Response::Done { tag, .. } => Some(tag),
        _ => None,
    }
}

/// Whether a response completes the command tagged `request_id`: it is the tagged
/// response of that tag.
pub fn completes(id: &RequestId, r: &Response) -> (done: bool)
    ensures
        done == (spec_request_id(r.deep_view()) == Some(id.0@)),
{
    match request_id(r) {
        Some(tag) => tag.0 == id.0,
        None => false,
    }
}

// ----- framing -----

/// What the decoder makes of the bytes received so far.
pub enum Decoded {
    /// A response, and how many bytes it took.
    Response(Response, usize),
    /// More bytes are needed.
    NeedMore,
    /// The bytes do not hold a response.
    Invalid,
}

/// Frames responses in a stream of bytes.
pub struct ImapCodec {
    decode_need_message_bytes: usize,
}

impl ImapCodec {
    /// The number of bytes that the last incomplete response said it needs.
    pub closed spec fn needed(&self) -> usize {
        self.decode_need_message_bytes
    }

    pub fn new() -> (r: Self)
        ensures
            r.needed() == 0,
    {
        ImapCodec { decode_need_message_bytes: 0 }
    }

    /// Decodes the response at the start of `buf`. Fewer bytes than an incomplete
    /// response asked for give `NeedMore` without parsing; an incomplete response that
    /// says how many bytes it needs keeps that number; a response resets it.
    pub fn decode(&mut self, buf: &[u8]) -> (r: Decoded)
        ensures
            old(self).needed() > buf@.len() ==> r is NeedMore && final(self).needed() == old(
                self,
            ).needed(),
            old(self).needed() <= buf@.len() ==> match spec_response(buf@, 0) {
                Ok((n, v)) => r matches Decoded::Response(rsp, m) && rsp.deep_view() == v && m
                    == n && final(self).needed() == 0,
                Err(ParseError::Incomplete(Needed::Size(k))) => r is NeedMore
                    && final(self).needed() == k,
                Err(ParseError::Incomplete(Needed::Unknown)) => r is NeedMore
                    && final(self).needed() == old(self).needed(),
                Err(ParseError::Error) => r is Invalid && final(self).needed() == old(
                    self,
                ).needed(),
            },
    {
        if self.decode_need_message_bytes > buf.len() {
            return Decoded::NeedMore;
        }
        match parse_response(buf) {
            Ok((remaining, response)) => {
                self.decode_need_message_bytes = 0;
                Decoded::Response(response, buf.len() - remaining.len())
            },
            Err(ParseError::Incomplete(Needed::Size(min))) => {
                self.decode_need_message_bytes = min;
                Decoded::NeedMore
            },
            Err(ParseError::Incomplete(Needed::Unknown)) => Decoded::NeedMore,
            Err(ParseError::Error) => Decoded::Invalid,
        }
    }
}

/// The bytes of a request: the tag, a space, the command, and CRLF.
pub fn encode_request(msg: &Request) -> (r: Vec<u8>)
    ensures
        r@ == msg.0@ + seq![0x20u8] + msg.1@ + seq![0x0du8, 0x0au8],
{
    let mut out: Vec<u8> = Vec::new();
    let mut a = msg.0.clone();
    out.append(&mut a);
    out.push(0x20);
    let mut b = msg.1.clone();
    out.append(&mut b);
    out.push(0x0d);
    out.push(0x0a);
    proof {
        assert(out@ =~= msg.0@ + seq![0x20u8] + msg.1@ + seq![0x0du8, 0x0au8]);
    }
    out
}


// ----- a command in flight -----

/// The responses that a command received, in order.
pub struct ServerMessages {
    pub frames: Vec<Response>,
}

impl ServerMessages {
    pub fn new() -> (r: Self)
        ensures
            r.frames@.len() == 0,
    {
        ServerMessages { frames: Vec::new() }
    }
}

/// A command that was sent and waits for its tagged response.
pub struct PendingCommand {
    request_id: RequestId,
    next_state: Option<State>,
    responses: ServerMessages,
}

impl PendingCommand {
    /// The tag of the command.
    pub closed spec fn tag(&self) -> Seq<char> {
        self.request_id.0@
    }

    /// The state that the command leads to.
    pub closed spec fn leads_to(&self) -> Option<State> {
        self.next_state
    }

    /// The responses received so far.
    pub closed spec fn received(&self) -> Seq<SpecResponse> {
        self.responses.frames.deep_view()
    }

    pub fn new(request_id: RequestId, next_state: Option<State>) -> (r: Self)
        ensures
            r.tag() == request_id.0@,
            r.leads_to() == next_state,
            r.received().len() == 0,
    {
        let r = PendingCommand { request_id, next_state, responses: ServerMessages::new() };
        proof {
            assert(r.received() =~= Seq::<SpecResponse>::empty());
        }
        r
    }

    /// Records a response: whether it completes the command, which is when it is the
    /// tagged response of the command's tag.
    pub fn receive(&mut self, frame: Response) -> (done: bool)
        ensures
            final(self).received() == old(self).received().push(frame.deep_view()),
            final(self).tag() == old(self).tag(),
            final(self).leads_to() == old(self).leads_to(),
            done == (spec_request_id(frame.deep_view()) == Some(old(self).tag())),
    {
        let done = completes(&self.request_id, &frame);
        let ghost before = self.responses.frames@;
        self.responses.frames.push(frame);
        proof {
            crate::parser::base::lemma_dv_push(before, self.responses.frames@, frame);
        }
        done
    }

    /// Ends the command: the session takes the state that the command leads to, and
    /// the responses are handed back.
    pub fn finish(self, state: &mut ClientState) -> (r: ServerMessages)
        ensures
            r.frames.deep_view() == self.received(),
            final(state).session_state() == (match self.leads_to() {
                Some(s) => s,
                None => old(state).session_state(),
            }),
            final(state).commands() == old(state).commands(),
    {
        state.complete(self.next_state);
        self.responses
    }
}

// ----- the stream of a command's responses -----

/// Where the stream of a command's responses stands.
#[derive(Clone, Copy, Debug, PartialEq, Eq, Structural)]
pub enum StreamState {
    /// The request is not sent yet.
    Start,
    /// The request is sent and being flushed.
    Sending,
    /// Responses are being received.
    Receiving,
    /// The tagged response came.
    Done,
}

/// What happened while the stream waited.
#[derive(Clone, Copy, Debug, PartialEq, Eq, Structural)]
pub enum StreamEvent {
    /// The connection can take the request.
    Ready,
    /// The request was flushed.
    Flushed,
    /// A response came; `true` where it completes the command.
    Received(bool),
    /// The connection failed.
    Failed,
    /// The connection ended.
    Ended,
}

/// What the stream does next.
#[derive(Clone, Copy, Debug, PartialEq, Eq, Structural)]
pub enum StreamAction {
    /// Send the request.
    Send,
    /// Go on waiting.
    Wait,
    /// Hand out the response.
    Yield,
    /// Hand out the response, and let the session take the command's next state.
    YieldAndComplete,
    /// Hand out the connection's error.
    YieldError,
    /// Hand out an error: the connection ended before the command completed.
    YieldEndError,
    /// End the stream.
    End,
}

/// The step of the stream of a command's responses: from where it stands and what
/// happened, where it goes and what it does.
pub open spec fn spec_stream_step(state: StreamState, event: StreamEvent) -> (StreamState, StreamAction) {
    match state {
        StreamState::Start => match event {
            StreamEvent::Ready => (StreamState::Sending, StreamAction::Send),
            StreamEvent::Failed => (StreamState::Start, StreamAction::YieldError),
            _ => (StreamState::Start, StreamAction::Wait),
        },
        StreamState::Sending => match event {
            StreamEvent::Flushed => (StreamState::Receiving, StreamAction::Wait),
            StreamEvent::Failed => (StreamState::Sending, StreamAction::YieldError),
            _ => (StreamState::Sending, StreamAction::Wait),
        },
        StreamState::Receiving => match event {
            StreamEvent::Received(true) => (StreamState::Done, StreamAction::YieldAndComplete),
            StreamEvent::Received(false) => (StreamState::Receiving, StreamAction::Yield),
            StreamEvent::Failed => (StreamState::Receiving, StreamAction::YieldError),
            StreamEvent::Ended => (StreamState::Receiving, StreamAction::YieldEndError),
            _ => (StreamState::Receiving, StreamAction::Wait),
        },
        StreamState::Done => (StreamState::Done, StreamAction::End),
    }
}

pub fn stream_step(state: StreamState, event: StreamEvent) -> (r: (StreamState, StreamAction))
    ensures
        r == spec_stream_step(state, event),
{
    match state {
        StreamState::Start => match event {
            StreamEvent::Ready => (StreamState::Sending, StreamAction::Send),
            StreamEvent::Failed => (StreamState::Start, StreamAction::YieldError),
            _ => (StreamState::Start, StreamAction::Wait),
        },
        StreamState::Sending => match event {
            StreamEvent::Flushed => (StreamState::Receiving, StreamAction::Wait),
            StreamEvent::Failed => (StreamState::Sending, StreamAction::YieldError),
            _ => (StreamState::Sending, StreamAction::Wait),
        },
        StreamState::Receiving => match event {
            StreamEvent::Received(true) => (StreamState::Done, StreamAction::YieldAndComplete),
            StreamEvent::Received(false) => (StreamState::Receiving, StreamAction::Yield),
            StreamEvent::Failed => (StreamState::Receiving, StreamAction::YieldError),
            StreamEvent::Ended => (StreamState::Receiving, StreamAction::YieldEndError),
            _ => (StreamState::Receiving, StreamAction::Wait),
        },
        StreamState::Done => (StreamState::Done, StreamAction::End),
    }
}

/// The actions of a stream that starts where `state` says and meets `events`.
pub open spec fn stream_run(state: StreamState, events: Seq<StreamEvent>) -> Seq<StreamAction>
    decreases events.len(),
{
    if events.len() == 0 {
        Seq::empty()
    } else {
        let (next, action) = spec_stream_step(state, events[0]);
        seq![action] + stream_run(next, events.drop_first())
    }
}

proof fn lemma_run_done(events: Seq<StreamEvent>)
    ensures
        stream_run(StreamState::Done, events).len() == events.len(),
        forall|k: int| 0 <= k < events.len() ==> #[trigger] stream_run(StreamState::Done, events)[k] == StreamAction::End,
    decreases events.len(),
{
    if events.len() > 0 {
        lemma_run_done(events.drop_first());
        let r = stream_run(StreamState::Done, events);
        assert forall|k: int| 0 <= k < events.len() implies #[trigger] r[k] == StreamAction::End by {
            if k > 0 {
                assert(r[k] == stream_run(StreamState::Done, events.drop_first())[k - 1]);
            }
        }
    }
}

proof fn lemma_run_sent(state: StreamState, events: Seq<StreamEvent>)
    requires
        state != StreamState::Start,
    ensures
        stream_run(state, events).len() == events.len(),
        forall|k: int| 0 <= k < events.len() ==> #[trigger] stream_run(state, events)[k] != StreamAction::Send,
    decreases events.len(),
{
    if events.len() > 0 {
        let (next, action) = spec_stream_step(state, events[0]);
        lemma_run_sent(next, events.drop_first());
        let r = stream_run(state, events);
        assert forall|k: int| 0 <= k < events.len() implies #[trigger] r[k] != StreamAction::Send by {
            if k > 0 {
                assert(r[k] == stream_run(next, events.drop_first())[k - 1]);
            }
        }
    }
}

/// Whatever happens, the stream of a command's responses sends the request at most once,
/// and completes the command at most once: once it has, it only ends.
pub proof fn lemma_stream_run(state: StreamState, events: Seq<StreamEvent>)
    ensures
        stream_run(state, events).len() == events.len(),
        forall|i: int, j: int|
            0 <= i < j < events.len() && #[trigger] stream_run(state, events)[i] == StreamAction::YieldAndComplete
                ==> #[trigger] stream_run(state, events)[j] == StreamAction::End,
        forall|i: int, j: int|
            0 <= i < j < events.len() && #[trigger] stream_run(state, events)[i] == StreamAction::Send
                ==> #[trigger] stream_run(state, events)[j] != StreamAction::Send,
    decreases events.len(),
{
    if events.len() > 0 {
        let (next, action) = spec_stream_step(state, events[0]);
        let tail = events.drop_first();
        lemma_stream_run(next, tail);
        let r = stream_run(state, events);
        let rt = stream_run(next, tail);
        assert forall|k: int| 0 < k < events.len() implies r[k] == rt[k - 1] by {}
        if action == StreamAction::YieldAndComplete {
            lemma_run_done(tail);
        }
        if action == StreamAction::Send {
            lemma_run_sent(next, tail);
        }
        assert forall|i: int, j: int|
            0 <= i < j < events.len() && #[trigger] r[i] == StreamAction::YieldAndComplete
                implies #[trigger] r[j] == StreamAction::End by {
            assert(r[j] == rt[j - 1]);
            if i > 0 {
                assert(r[i] == rt[i - 1]);
            }
        }
        assert forall|i: int, j: int|
            0 <= i < j < events.len() && #[trigger] r[i] == StreamAction::Send
                implies #[trigger] r[j] != StreamAction::Send by {
            assert(r[j] == rt[j - 1]);
            if i > 0 {
                assert(r[i] == rt[i - 1]);
            }
        }
    }
}

/// The events of responses received for the command tagged `tag`: each says whether
/// its response completes the command.
pub open spec fn response_events(rs: Seq<SpecResponse>, tag: Seq<char>) -> Seq<StreamEvent> {
    Seq::new(rs.len(), |j: int| StreamEvent::Received(spec_request_id(rs[j]) == Some(tag)))
}

/// The position of the first response that completes the command tagged `tag`, or the
/// number of responses where none does.
pub open spec fn completing_index(rs: Seq<SpecResponse>, tag: Seq<char>) -> int
    decreases rs.len(),
{
    if rs.len() == 0 {
        0
    } else if spec_request_id(rs[0]) == Some(tag) {
        0
    } else {
        1 + completing_index(rs.drop_first(), tag)
    }
}

/// What the stream does with each response: hand out those before the completing one,
/// hand it out and complete the command, then end.
pub open spec fn response_actions(rs: Seq<SpecResponse>, tag: Seq<char>) -> Seq<StreamAction> {
    let k = completing_index(rs, tag);
    Seq::new(
        rs.len(),
        |j: int|
            if j < k {
                StreamAction::Yield
            } else if j == k {
                StreamAction::YieldAndComplete
            } else {
                StreamAction::End
            },
    )
}

proof fn lemma_receiving_run(rs: Seq<SpecResponse>, tag: Seq<char>)
    ensures
        stream_run(StreamState::Receiving, response_events(rs, tag)) == response_actions(rs, tag),
        0 <= completing_index(rs, tag) <= rs.len(),
    decreases rs.len(),
{
    let ev = response_events(rs, tag);
    if rs.len() > 0 {
        let tail = rs.drop_first();
        assert(ev.drop_first() =~= response_events(tail, tag));
        lemma_receiving_run(tail, tag);
        let r = stream_run(StreamState::Receiving, ev);
        if spec_request_id(rs[0]) == Some(tag) {
            lemma_run_done(ev.drop_first());
            assert(r =~= response_actions(rs, tag));
        } else {
            assert(r =~= response_actions(rs, tag));
        }
    } else {
        assert(stream_run(StreamState::Receiving, ev) =~= response_actions(rs, tag));
    }
}

/// The run of a command's stream: once the connection takes the request and it is
/// flushed, the stream hands out the responses before the first one tagged with the
/// command's tag, then that one while completing the command, and ends from then on.
/// Where no response carries the tag and the connection ends, the stream hands out the
/// error of an early end.
pub proof fn lemma_command_stream(rs: Seq<SpecResponse>, tag: Seq<char>)
    ensures
        stream_run(
            StreamState::Start,
            seq![StreamEvent::Ready, StreamEvent::Flushed] + response_events(rs, tag),
        ) == seq![StreamAction::Send, StreamAction::Wait] + response_actions(rs, tag),
        completing_index(rs, tag) == rs.len() ==> stream_run(
            StreamState::Start,
            seq![StreamEvent::Ready, StreamEvent::Flushed] + response_events(rs, tag) + seq![StreamEvent::Ended],
        ) == seq![StreamAction::Send, StreamAction::Wait] + response_actions(rs, tag) + seq![StreamAction::YieldEndError],
{
    lemma_receiving_run(rs, tag);
    let ev = seq![StreamEvent::Ready, StreamEvent::Flushed] + response_events(rs, tag);
    assert(ev[0] == StreamEvent::Ready);
    assert(ev.drop_first()[0] == StreamEvent::Flushed);
    assert(ev.drop_first().drop_first() =~= response_events(rs, tag));
    assert(stream_run(StreamState::Sending, ev.drop_first()) == seq![StreamAction::Wait] + stream_run(StreamState::Receiving, ev.drop_first().drop_first()));
    assert(stream_run(StreamState::Start, ev) == seq![StreamAction::Send] + stream_run(StreamState::Sending, ev.drop_first()));
    assert(stream_run(StreamState::Start, ev) =~= seq![StreamAction::Send, StreamAction::Wait] + response_actions(rs, tag));
    if completing_index(rs, tag) == rs.len() {
        lemma_receiving_ended(rs, tag);
        let ev2 = ev + seq![StreamEvent::Ended];
        assert(ev2[0] == StreamEvent::Ready);
        assert(ev2.drop_first()[0] == StreamEvent::Flushed);
        assert(ev2.drop_first().drop_first() =~= response_events(rs, tag) + seq![StreamEvent::Ended]);
        assert(stream_run(StreamState::Sending, ev2.drop_first()) == seq![StreamAction::Wait] + stream_run(StreamState::Receiving, ev2.drop_first().drop_first()));
        assert(stream_run(StreamState::Start, ev2) == seq![StreamAction::Send] + stream_run(StreamState::Sending, ev2.drop_first()));
        assert(stream_run(StreamState::Start, ev2) =~= seq![StreamAction::Send, StreamAction::Wait] + response_actions(rs, tag) + seq![StreamAction::YieldEndError]);
    }
}

proof fn lemma_receiving_ended(rs: Seq<SpecResponse>, tag: Seq<char>)
    requires
        completing_index(rs, tag) == rs.len(),
    ensures
        stream_run(StreamState::Receiving, response_events(rs, tag) + seq![StreamEvent::Ended])
            == response_actions(rs, tag) + seq![StreamAction::YieldEndError],
    decreases rs.len(),
{
    let ev = response_events(rs, tag) + seq![StreamEvent::Ended];
    if rs.len() > 0 {
        let tail = rs.drop_first();
        assert(spec_request_id(rs[0]) != Some(tag));
        assert(ev.drop_first() =~= response_events(tail, tag) + seq![StreamEvent::Ended]);
        lemma_receiving_ended(tail, tag);
        assert(ev[0] == StreamEvent::Received(false));
        assert(stream_run(StreamState::Receiving, ev) == seq![StreamAction::Yield] + stream_run(StreamState::Receiving, ev.drop_first()));
        assert(completing_index(rs, tag) == 1 + completing_index(tail, tag));
        assert(response_actions(rs, tag) =~= seq![StreamAction::Yield] + response_actions(tail, tag));
        assert(stream_run(StreamState::Receiving, ev) =~= response_actions(rs, tag) + seq![StreamAction::YieldEndError]);
    } else {
        assert(ev =~= seq![StreamEvent::Ended]);
        assert(ev.drop_first() =~= Seq::<StreamEvent>::empty());
        assert(ev[0] == StreamEvent::Ended);
        assert(stream_run(StreamState::Receiving, ev.drop_first()) =~= Seq::<StreamAction>::empty());
        assert(stream_run(StreamState::Receiving, ev) == seq![StreamAction::YieldEndError] + stream_run(StreamState::Receiving, ev.drop_first()));
        assert(response_actions(rs, tag) =~= Seq::<StreamAction>::empty());
        assert(stream_run(StreamState::Receiving, ev) =~= response_actions(rs, tag) + seq![StreamAction::YieldEndError]);
    }
}

/// The stream completes the command only on the tagged response that it waits for,
/// after the request was flushed.
pub proof fn lemma_stream_completes_on_tag(state: StreamState, event: StreamEvent)
    ensures
        spec_stream_step(state, event).1 == StreamAction::YieldAndComplete
            <==> state == StreamState::Receiving && event == StreamEvent::Received(true),
        spec_stream_step(state, event).1 == StreamAction::YieldAndComplete
            ==> spec_stream_step(state, event).0 == StreamState::Done,
{
}

/// The first response that carries `tag` is at `j` when none before it does.
proof fn lemma_completing_at(all: Seq<SpecResponse>, tag: Seq<char>, j: int)
    requires
        0 <= j < all.len(),
        spec_request_id(all[j]) == Some(tag),
        forall|i: int| 0 <= i < j ==> spec_request_id(#[trigger] all[i]) != Some(tag),
    ensures
        completing_index(all, tag) == j,
    decreases j,
{
    if j > 0 {
        let tail = all.drop_first();
        assert(spec_request_id(all[0]) != Some(tag));
        assert forall|i: int| 0 <= i < j - 1 implies spec_request_id(#[trigger] tail[i]) != Some(tag) by {
            assert(tail[i] == all[i + 1]);
        }
        assert(tail[j - 1] == all[j]);
        lemma_completing_at(tail, tag, j - 1);
    }
}

/// A command that receives responses until `receive` says one completes it collects
/// exactly the responses up to and with the first one tagged with its tag, which is
/// where it stops. `steps` are the command after each `receive` (the first before any),
/// `dones` what each call returned, and `all` the responses in the order they came.
pub proof fn lemma_pending_run(all: Seq<SpecResponse>, steps: Seq<PendingCommand>, dones: Seq<bool>)
    requires
        1 <= dones.len() <= all.len(),
        steps.len() == dones.len() + 1,
        steps[0].received().len() == 0,
        forall|i: int| 0 <= i < dones.len() ==> {
            &&& #[trigger] steps[i + 1].received() == steps[i].received().push(all[i])
            &&& steps[i + 1].tag() == steps[i].tag()
            &&& steps[i + 1].leads_to() == steps[i].leads_to()
            &&& dones[i] == (spec_request_id(all[i]) == Some(steps[i].tag()))
        },
        forall|i: int| 0 <= i < dones.len() - 1 ==> !#[trigger] dones[i],
        dones.last(),
    ensures
        completing_index(all, steps[0].tag()) == dones.len() - 1,
        steps.last().received() == all.take(dones.len() as int),
        steps.last().tag() == steps[0].tag(),
        steps.last().leads_to() == steps[0].leads_to(),
{
    let n = dones.len() as int;
    let tag = steps[0].tag();
    assert forall|i: int| 0 <= i < n - 1 implies spec_request_id(#[trigger] all[i]) != Some(tag) by {
        lemma_pending_prefix(all, steps, dones, i);
        assert(steps[i + 1].received() == steps[i].received().push(all[i]));
        assert(!dones[i]);
    }
    lemma_pending_prefix(all, steps, dones, n - 1);
    lemma_pending_prefix(all, steps, dones, n);
    assert(steps[n].received() == steps[n - 1].received().push(all[n - 1]));
    assert(dones[n - 1]);
    lemma_completing_at(all, tag, n - 1);
}

proof fn lemma_pending_prefix(all: Seq<SpecResponse>, steps: Seq<PendingCommand>, dones: Seq<bool>, i: int)
    requires
        1 <= dones.len() <= all.len(),
        steps.len() == dones.len() + 1,
        steps[0].received().len() == 0,
        forall|j: int| 0 <= j < dones.len() ==> {
            &&& #[trigger] steps[j + 1].received() == steps[j].received().push(all[j])
            &&& steps[j + 1].tag() == steps[j].tag()
            &&& steps[j + 1].leads_to() == steps[j].leads_to()
            &&& dones[j] == (spec_request_id(all[j]) == Some(steps[j].tag()))
        },
        0 <= i <= dones.len(),
    ensures
        steps[i].received() == all.take(i),
        steps[i].tag() == steps[0].tag(),
        steps[i].leads_to() == steps[0].leads_to(),
    decreases i,
{
    if i == 0 {
        assert(all.take(0) =~= steps[0].received());
    } else {
        lemma_pending_prefix(all, steps, dones, i - 1);
        assert(steps[i].received() == steps[i - 1].received().push(all[i - 1]));
        assert(all.take(i) =~= all.take(i - 1).push(all[i - 1]));
    }
}

/// The tags of a session's commands in order: the `k`th call of `next` after `new`
/// (from 1) gives "A" and the last four decimal digits of `k`. `gens` are the generator
/// after each call (the first right after `new`), `tags` what each call returned.
pub proof fn lemma_tags_in_order(gens: Seq<IdGenerator>, tags: Seq<Option<RequestId>>)
    requires
        gens.len() == tags.len() + 1,
        gens[0].count() == 0,
        forall|i: int| 0 <= i < tags.len() ==> {
            &&& #[trigger] gens[i + 1].count() == gens[i].count() + 1
            &&& tags[i] matches Some(id) && id.0@ == spec_tag_of(gens[i + 1].count())
        },
    ensures
        forall|i: int| 0 <= i < tags.len() ==> (#[trigger] tags[i] matches Some(id) && id.0@ == spec_tag_of((i + 1) as nat)),
{
    assert forall|i: int| 0 <= i <= tags.len() implies #[trigger] gens[i].count() == i by {
        lemma_count_is_calls(gens, tags, i);
    }
    assert forall|i: int| 0 <= i < tags.len() implies (#[trigger] tags[i] matches Some(id) && id.0@ == spec_tag_of((i + 1) as nat)) by {
        assert(gens[i + 1].count() == gens[i].count() + 1);
        assert(gens[i].count() == i);
    }
}

proof fn lemma_count_is_calls(gens: Seq<IdGenerator>, tags: Seq<Option<RequestId>>, i: int)
    requires
        gens.len() == tags.len() + 1,
        gens[0].count() == 0,
        forall|j: int| 0 <= j < tags.len() ==> #[trigger] gens[j + 1].count() == gens[j].count() + 1,
        0 <= i <= tags.len(),
    ensures
        gens[i].count() == i,
    decreases i,
{
    if i > 0 {
        lemma_count_is_calls(gens, tags, i - 1);
        assert(gens[i].count() == gens[i - 1].count() + 1);
    }
}

} // verus!
