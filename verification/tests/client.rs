use imap_proto::client::{
    completes, encode_request, request_id, stream_step, ClientState, Decoded, IdGenerator,
    ImapCodec, PendingCommand, StreamAction, StreamEvent, StreamState,
};
use imap_proto::parse_response;
use imap_proto::types::{Request, RequestId, Response, State, Status};

#[test]
fn tags_count_up_from_one() {
    let mut ids = IdGenerator::new();
    assert_eq!(ids.next(), Some(RequestId("A0001".to_string())));
    assert_eq!(ids.next(), Some(RequestId("A0002".to_string())));
    assert_eq!(ids.next(), Some(RequestId("A0003".to_string())));
}

#[test]
fn tags_keep_four_digits_and_wrap() {
    let mut ids = IdGenerator::new();
    let mut seen = std::collections::HashSet::new();
    for n in 1..=10_000u32 {
        let id = ids.next().unwrap();
        assert_eq!(id.0.len(), 5);
        if n == 1234 {
            assert_eq!(id.0, "A1234");
        }
        if n == 10_000 {
            assert_eq!(id.0, "A0000");
        }
        assert!(seen.insert(id.0));
    }
    assert_eq!(ids.next(), Some(RequestId("A0001".to_string())));
}

#[test]
fn session_state_follows_completed_commands() {
    let mut state = ClientState::new();
    assert_eq!(state.state(), State::NotAuthenticated);
    assert_eq!(state.command_count(), 0);
    let id = state.next_request_id();
    assert_eq!(id.0, "A0001");
    assert_eq!(state.command_count(), 1);
    state.complete(None);
    assert_eq!(state.state(), State::NotAuthenticated);
    state.complete(Some(State::Authenticated));
    assert_eq!(state.state(), State::Authenticated);
    assert_eq!(state.command_count(), 1);
}

#[test]
fn a_tagged_response_completes_its_command() {
    let (rest, resp) = parse_response(b"A0001 OK LOGIN completed\r\n").unwrap();
    assert!(rest.is_empty());
    assert_eq!(request_id(&resp), Some(&RequestId("A0001".to_string())));
    assert!(completes(&RequestId("A0001".to_string()), &resp));
    assert!(!completes(&RequestId("A0002".to_string()), &resp));

    let (_, untagged) = parse_response(b"* 3 EXISTS\r\n").unwrap();
    assert_eq!(request_id(&untagged), None);
    assert!(!completes(&RequestId("A0001".to_string()), &untagged));
}

#[test]
fn the_next_tag_reads_back() {
    let mut state = ClientState::new();
    let id = state.next_request_id();
    let mut line = id.as_bytes().to_vec();
    line.extend_from_slice(b" NO [ALERT] nope\r\n");
    let (_, resp) = parse_response(&line).unwrap();
    match &resp {
        Response::Done { tag, status, .. } => {
            assert_eq!(tag, &id);
            assert_eq!(*status, Status::No);
        }
        other => panic!("unexpected {:?}", other),
    }
    assert!(completes(&id, &resp));
}

#[test]
fn codec_frames_responses() {
    let mut codec = ImapCodec::new();
    let buf = b"* 22 EXPUNGE\r\n* 23 EXISTS\r\n";
    match codec.decode(buf) {
        Decoded::Response(Response::Expunge(22), n) => assert_eq!(n, 14),
        other => panic!("unexpected {:?}", matches!(other, Decoded::NeedMore)),
    }
    match codec.decode(&buf[14..]) {
        Decoded::Response(Response::MailboxData(_), n) => assert_eq!(n, 13),
        _ => panic!("expected EXISTS"),
    }
}

#[test]
fn codec_waits_for_the_rest_of_a_response() {
    let mut codec = ImapCodec::new();
    assert!(matches!(codec.decode(b"* 22 EXPUN"), Decoded::NeedMore));
    assert!(matches!(codec.decode(b""), Decoded::NeedMore));
    // A literal says how many bytes it needs; fewer bytes give NeedMore without parsing.
    let partial = b"* 1 FETCH (BODY[] {10}\r\nab";
    assert!(matches!(codec.decode(partial), Decoded::NeedMore));
    assert!(matches!(codec.decode(b"* 1"), Decoded::NeedMore));
    match codec.decode(b"* 1 FETCH (BODY[] {3}\r\nabc)\r\n") {
        Decoded::Response(Response::Fetch(1, _), n) => assert_eq!(n, 29),
        _ => panic!("expected FETCH"),
    }
}

#[test]
fn codec_refuses_what_is_no_response() {
    let mut codec = ImapCodec::new();
    assert!(matches!(codec.decode(b"* NOPE nonsense\r\n"), Decoded::Invalid));
    assert!(matches!(codec.decode(b")\r\n"), Decoded::Invalid));
}

#[test]
fn requests_are_framed_with_tag_and_crlf() {
    let req = Request(b"A0001".to_vec(), b"NOOP".to_vec());
    assert_eq!(encode_request(&req), b"A0001 NOOP\r\n".to_vec());
    let empty = Request(Vec::new(), Vec::new());
    assert_eq!(encode_request(&empty), b" \r\n".to_vec());
}

#[test]
fn a_pending_command_collects_its_responses() {
    let mut state = ClientState::new();
    let id = state.next_request_id();
    let mut pending = PendingCommand::new(id, Some(State::Selected));
    let (_, r1) = parse_response(b"* 172 EXISTS\r\n").unwrap();
    let (_, r2) = parse_response(b"* OK [UIDVALIDITY 3857529045] UIDs valid\r\n").unwrap();
    let (_, r3) = parse_response(b"A0001 OK [READ-WRITE] SELECT completed\r\n").unwrap();
    assert!(!pending.receive(r1));
    assert!(!pending.receive(r2));
    assert!(pending.receive(r3));
    let messages = pending.finish(&mut state);
    assert_eq!(messages.frames.len(), 3);
    assert_eq!(state.state(), State::Selected);
}

#[test]
fn a_failed_command_keeps_the_state() {
    let mut state = ClientState::new();
    let id = state.next_request_id();
    let mut pending = PendingCommand::new(id, None);
    let (_, r) = parse_response(b"A0001 NO [AUTHENTICATIONFAILED] Invalid credentials\r\n").unwrap();
    assert!(pending.receive(r));
    let messages = pending.finish(&mut state);
    assert_eq!(messages.frames.len(), 1);
    assert_eq!(state.state(), State::NotAuthenticated);
}

#[test]
fn stream_steps() {
    assert_eq!(stream_step(StreamState::Start, StreamEvent::Ready), (StreamState::Sending, StreamAction::Send));
    assert_eq!(stream_step(StreamState::Start, StreamEvent::Flushed), (StreamState::Start, StreamAction::Wait));
    assert_eq!(stream_step(StreamState::Start, StreamEvent::Failed), (StreamState::Start, StreamAction::YieldError));
    assert_eq!(stream_step(StreamState::Sending, StreamEvent::Flushed), (StreamState::Receiving, StreamAction::Wait));
    assert_eq!(stream_step(StreamState::Sending, StreamEvent::Ready), (StreamState::Sending, StreamAction::Wait));
    assert_eq!(stream_step(StreamState::Sending, StreamEvent::Failed), (StreamState::Sending, StreamAction::YieldError));
    assert_eq!(stream_step(StreamState::Receiving, StreamEvent::Received(false)), (StreamState::Receiving, StreamAction::Yield));
    assert_eq!(stream_step(StreamState::Receiving, StreamEvent::Received(true)), (StreamState::Done, StreamAction::YieldAndComplete));
    assert_eq!(stream_step(StreamState::Receiving, StreamEvent::Failed), (StreamState::Receiving, StreamAction::YieldError));
    assert_eq!(stream_step(StreamState::Receiving, StreamEvent::Ended), (StreamState::Receiving, StreamAction::YieldEndError));
    assert_eq!(stream_step(StreamState::Receiving, StreamEvent::Ready), (StreamState::Receiving, StreamAction::Wait));
    for e in [StreamEvent::Ready, StreamEvent::Flushed, StreamEvent::Received(true), StreamEvent::Received(false), StreamEvent::Failed, StreamEvent::Ended] {
        assert_eq!(stream_step(StreamState::Done, e), (StreamState::Done, StreamAction::End));
    }
}

#[test]
fn a_stream_completes_once() {
    let events = [StreamEvent::Ready, StreamEvent::Ready, StreamEvent::Flushed, StreamEvent::Received(false), StreamEvent::Received(true), StreamEvent::Received(true), StreamEvent::Ended];
    let mut state = StreamState::Start;
    let mut actions = Vec::new();
    for e in events {
        let (next, action) = stream_step(state, e);
        state = next;
        actions.push(action);
    }
    assert_eq!(actions.iter().filter(|a| **a == StreamAction::Send).count(), 1);
    assert_eq!(actions.iter().filter(|a| **a == StreamAction::YieldAndComplete).count(), 1);
    assert_eq!(&actions[5..], &[StreamAction::End, StreamAction::End]);
}
