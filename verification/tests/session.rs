use bytes::Bytes;
use rustcon::packet::{Packet, PacketType};
use rustcon::session::{accepts_login, Action, Event, Goal, Phase, Rcon, RconError};

fn reply(id: i32, typ: i32, body: &[u8]) -> Vec<u8> {
    let mut v = Vec::new();
    v.extend_from_slice(&(body.len() as i32 + 10).to_le_bytes());
    v.extend_from_slice(&id.to_le_bytes());
    v.extend_from_slice(&typ.to_le_bytes());
    v.extend_from_slice(body);
    v.extend_from_slice(&[0, 0]);
    v
}

fn received(id: i32, body: &[u8]) -> Packet {
    let mut buf = Bytes::copy_from_slice(&reply(id, 0, body));
    Packet::deserialize(&mut buf).unwrap()
}

fn sent_bytes(action: Action) -> Vec<u8> {
    match action {
        Action::Send(bytes) => bytes[..].to_vec(),
        other => panic!("expected a packet to send, got {:?}", other),
    }
}

fn is_receive(action: &Action) -> bool {
    matches!(action, Action::Receive)
}

fn logged_in() -> Rcon {
    let mut rcon = Rcon::new();
    let _ = sent_bytes(rcon.authenticate_with("secret".to_string()));
    assert!(is_receive(&rcon.step(Event::Sent)));
    let _ = sent_bytes(rcon.step(Event::Received(reply(1, 2, b""))));
    assert!(is_receive(&rcon.step(Event::Sent)));
    assert!(matches!(
        rcon.step(Event::ReadEnded),
        Action::Authenticated(true)
    ));
    rcon
}

/// Plays a server that answers every packet it is sent with the next list of
/// reads from `script`, and then with silence.
fn run_against_stub(rcon: &mut Rcon, first: Action, script: Vec<Vec<Vec<u8>>>) -> (Action, Vec<Vec<u8>>) {
    let mut written = Vec::new();
    let mut answers = script.into_iter();
    let mut pending: Vec<Vec<u8>> = Vec::new();
    let mut action = first;
    for _ in 0..1000 {
        let event = match action {
            Action::Send(bytes) => {
                written.push(bytes[..].to_vec());
                pending = answers.next().unwrap_or_default();
                pending.reverse();
                Event::Sent
            }
            Action::Receive => match pending.pop() {
                Some(data) => Event::Received(data),
                None => Event::ReadEnded,
            },
            done => return (done, written),
        };
        action = rcon.step(event);
    }
    panic!("the session did not come to an end");
}

#[test]
fn new_session_has_sent_nothing() {
    let rcon = Rcon::new();
    assert_eq!(rcon.last_sent_id(), 0);
    assert_eq!(rcon.next_send_id(), 1);
    assert!(!rcon.is_authenticated());
    assert_eq!(rcon.phase(), Phase::Idle);
}

#[test]
fn login_is_accepted_when_all_ids_match() {
    let packets = vec![received(1, b"a"), received(1, b""), received(1, b"c")];
    assert!(accepts_login(&packets, 1));
    let packets = vec![received(77, b"")];
    assert!(accepts_login(&packets, 77));
}

#[test]
fn login_is_accepted_by_no_answer() {
    assert!(accepts_login(&Vec::new(), 1));
}

#[test]
fn login_is_rejected_by_bad_auth() {
    let packets = vec![received(-1, b"")];
    assert!(!accepts_login(&packets, 1));
    let packets = vec![received(1, b"x"), received(-1, b""), received(1, b"")];
    assert!(!accepts_login(&packets, 1));
    let packets = vec![received(-1, b"")];
    assert!(!accepts_login(&packets, -1));
}

#[test]
fn login_is_rejected_by_another_id() {
    let packets = vec![received(2, b"x"), received(1, b"")];
    assert!(!accepts_login(&packets, 1));
    let packets = vec![received(1, b"x"), received(0, b"")];
    assert!(!accepts_login(&packets, 1));
}

#[test]
fn command_before_login_is_sent() {
    let mut rcon = Rcon::new();
    let bytes = sent_bytes(rcon.send_cmd("status"));
    assert_eq!(
        bytes,
        vec![16, 0, 0, 0, 1, 0, 0, 0, 2, 0, 0, 0, 0x73, 0x74, 0x61, 0x74, 0x75, 0x73, 0, 0]
    );
    assert_eq!(rcon.last_sent_id(), 0);
    assert_eq!(rcon.next_send_id(), 1);
    assert_eq!(rcon.phase(), Phase::Sending(Goal::Command, 1));
    assert!(is_receive(&rcon.step(Event::Sent)));
    assert_eq!(rcon.last_sent_id(), 1);
    assert_eq!(rcon.next_send_id(), 2);
    assert!(!rcon.is_authenticated());
    match rcon.step(Event::Received(reply(1, 0, b""))) {
        Action::Response(Ok(packets)) => assert_eq!(packets.len(), 1),
        other => panic!("expected a response, got {:?}", other),
    }
    assert!(!rcon.is_authenticated());
}

#[test]
fn command_before_login_keeps_ids_when_write_fails() {
    let mut rcon = Rcon::new();
    let _ = sent_bytes(rcon.send_cmd("status"));
    assert!(matches!(
        rcon.step(Event::SendFailed),
        Action::Response(Err(RconError::ConnError))
    ));
    assert_eq!(rcon.last_sent_id(), 0);
    assert_eq!(rcon.next_send_id(), 1);
    assert_eq!(rcon.phase(), Phase::Idle);
}

#[test]
fn commands_before_login_carry_consecutive_ids() {
    let mut rcon = Rcon::new();
    for expected in 1..5 {
        let first = rcon.send_cmd("status");
        let script = vec![vec![reply(expected, 0, b"")]];
        let (result, written) = run_against_stub(&mut rcon, first, script);
        assert!(matches!(result, Action::Response(Ok(_))));
        assert_eq!(written[0][4..8], expected.to_le_bytes());
        assert_eq!(rcon.last_sent_id(), expected);
        assert_eq!(rcon.next_send_id(), expected + 1);
    }
}

#[test]
fn command_during_login_gives_up_login() {
    let mut rcon = Rcon::new();
    let _ = sent_bytes(rcon.authenticate_with("pw".to_string()));
    let bytes = sent_bytes(rcon.send_cmd("status"));
    assert_eq!(bytes[4..8], 1i32.to_le_bytes());
    assert_eq!(bytes[8..12], 2i32.to_le_bytes());
    assert_eq!(rcon.phase(), Phase::Sending(Goal::Command, 1));
    assert!(is_receive(&rcon.step(Event::Sent)));
    assert!(matches!(
        rcon.step(Event::ReadEnded),
        Action::Response(Ok(_))
    ));
    assert!(!rcon.is_authenticated());
}

#[test]
fn login_sends_login_packet() {
    let mut rcon = Rcon::new();
    let bytes = sent_bytes(rcon.authenticate_with("pw".to_string()));
    assert_eq!(
        bytes,
        vec![12, 0, 0, 0, 1, 0, 0, 0, 3, 0, 0, 0, b'p', b'w', 0, 0]
    );
    assert_eq!(rcon.phase(), Phase::Sending(Goal::Login, 1));
    assert_eq!(rcon.last_sent_id(), 0);
    assert_eq!(rcon.next_send_id(), 1);
}

#[test]
fn login_without_password_sends_empty_password() {
    let mut rcon = Rcon::new();
    let bytes = sent_bytes(rcon.authenticate(None));
    assert_eq!(bytes, vec![10, 0, 0, 0, 1, 0, 0, 0, 3, 0, 0, 0, 0, 0]);
    let mut rcon = Rcon::new();
    let bytes = sent_bytes(rcon.authenticate(Some("x".to_string())));
    assert_eq!(bytes, vec![11, 0, 0, 0, 1, 0, 0, 0, 3, 0, 0, 0, b'x', 0, 0]);
}

#[test]
fn login_with_non_ascii_password_fails_without_sending() {
    let mut rcon = Rcon::new();
    assert!(matches!(
        rcon.authenticate_with("p\u{e4}ss".to_string()),
        Action::Authenticated(false)
    ));
    assert_eq!(rcon.phase(), Phase::Idle);
    assert_eq!(rcon.next_send_id(), 1);
    assert!(!rcon.is_authenticated());
}

#[test]
fn login_with_long_password_is_sent() {
    let mut rcon = Rcon::new();
    let bytes = sent_bytes(rcon.authenticate_with("p".repeat(5000)));
    assert_eq!(bytes.len(), 5014);
    assert_eq!(bytes[..4], 5010i32.to_le_bytes());
    assert_eq!(bytes[4..8], 1i32.to_le_bytes());
    assert_eq!(bytes[8..12], 3i32.to_le_bytes());
    assert_eq!(rcon.phase(), Phase::Sending(Goal::Login, 1));
}

#[test]
fn login_accepted_by_stub_server() {
    let mut rcon = Rcon::new();
    let first = rcon.authenticate_with("secret".to_string());
    let script = vec![vec![reply(1, 2, b"")], vec![reply(2, 0, b"")]];
    let (result, written) = run_against_stub(&mut rcon, first, script);
    assert!(matches!(result, Action::Authenticated(true)));
    assert!(rcon.is_authenticated());
    assert_eq!(written.len(), 2);
    assert_eq!(
        written[0],
        vec![16, 0, 0, 0, 1, 0, 0, 0, 3, 0, 0, 0, b's', b'e', b'c', b'r', b'e', b't', 0, 0]
    );
    assert_eq!(written[1], vec![10, 0, 0, 0, 2, 0, 0, 0, 2, 0, 0, 0, 0, 0]);
    assert_eq!(rcon.last_sent_id(), 2);
    assert_eq!(rcon.next_send_id(), 3);
    assert_eq!(rcon.phase(), Phase::Idle);
}

#[test]
fn login_rejected_by_stub_server() {
    let mut rcon = Rcon::new();
    let first = rcon.authenticate_with("wrong".to_string());
    let script = vec![vec![reply(-1, 2, b"")]];
    let (result, written) = run_against_stub(&mut rcon, first, script);
    assert!(matches!(result, Action::Authenticated(false)));
    assert!(!rcon.is_authenticated());
    assert_eq!(written.len(), 1);
    assert_eq!(rcon.last_sent_id(), 1);
    assert_eq!(rcon.next_send_id(), 2);
    assert_eq!(rcon.phase(), Phase::Idle);
}

#[test]
fn login_rejected_when_first_id_differs() {
    let mut rcon = Rcon::new();
    let first = rcon.authenticate_with("pw".to_string());
    let script = vec![vec![reply(5, 0, b"junk"), reply(1, 2, b"")]];
    let (result, written) = run_against_stub(&mut rcon, first, script);
    assert!(matches!(result, Action::Authenticated(false)));
    assert!(!rcon.is_authenticated());
    assert_eq!(written.len(), 1);
}

#[test]
fn login_accepted_after_two_matching_answers() {
    let mut rcon = Rcon::new();
    let first = rcon.authenticate_with("pw".to_string());
    let script = vec![vec![reply(1, 0, b"x"), reply(1, 2, b"")]];
    let (result, written) = run_against_stub(&mut rcon, first, script);
    assert!(matches!(result, Action::Authenticated(true)));
    assert_eq!(written.len(), 2);
}

#[test]
fn login_rejected_when_bad_auth_follows_a_match() {
    let mut rcon = Rcon::new();
    let first = rcon.authenticate_with("pw".to_string());
    let script = vec![vec![reply(1, 0, b"x"), reply(-1, 2, b"")]];
    let (result, _) = run_against_stub(&mut rcon, first, script);
    assert!(matches!(result, Action::Authenticated(false)));
    assert!(!rcon.is_authenticated());
}

#[test]
fn login_accepted_when_server_stays_silent() {
    let mut rcon = Rcon::new();
    let first = rcon.authenticate_with("pw".to_string());
    let (result, written) = run_against_stub(&mut rcon, first, Vec::new());
    assert!(matches!(result, Action::Authenticated(true)));
    assert_eq!(written.len(), 2);
}

#[test]
fn login_fails_when_write_fails() {
    let mut rcon = Rcon::new();
    let _ = sent_bytes(rcon.authenticate_with("pw".to_string()));
    assert!(matches!(
        rcon.step(Event::SendFailed),
        Action::Authenticated(false)
    ));
    assert_eq!(rcon.phase(), Phase::Idle);
    assert_eq!(rcon.last_sent_id(), 0);
    assert_eq!(rcon.next_send_id(), 1);
}

#[test]
fn login_fails_when_answer_is_undersized() {
    let mut rcon = Rcon::new();
    let _ = sent_bytes(rcon.authenticate_with("pw".to_string()));
    assert!(is_receive(&rcon.step(Event::Sent)));
    let mut bad = reply(1, 2, b"");
    bad[0] = 3;
    assert!(matches!(
        rcon.step(Event::Received(bad)),
        Action::Authenticated(false)
    ));
    assert!(!rcon.is_authenticated());
    assert_eq!(rcon.phase(), Phase::Idle);
}

#[test]
fn follow_up_failure_keeps_login() {
    let mut rcon = Rcon::new();
    let _ = sent_bytes(rcon.authenticate_with("pw".to_string()));
    assert!(is_receive(&rcon.step(Event::Sent)));
    let _ = sent_bytes(rcon.step(Event::Received(reply(1, 2, b""))));
    assert!(rcon.is_authenticated());
    assert_eq!(rcon.phase(), Phase::Sending(Goal::FollowUp, 2));
    assert!(matches!(
        rcon.step(Event::SendFailed),
        Action::Authenticated(true)
    ));
    assert!(rcon.is_authenticated());
    assert_eq!(rcon.last_sent_id(), 1);
    assert_eq!(rcon.next_send_id(), 2);

    let mut rcon = Rcon::new();
    let _ = sent_bytes(rcon.authenticate_with("pw".to_string()));
    assert!(is_receive(&rcon.step(Event::Sent)));
    let _ = sent_bytes(rcon.step(Event::Received(reply(1, 2, b""))));
    assert!(is_receive(&rcon.step(Event::Sent)));
    assert!(matches!(
        rcon.step(Event::Received(vec![1, 2, 3])),
        Action::Authenticated(true)
    ));
    assert!(rcon.is_authenticated());
}

#[test]
fn command_sends_next_id_and_advances() {
    let mut rcon = logged_in();
    assert_eq!(rcon.next_send_id(), 3);
    let bytes = sent_bytes(rcon.send_cmd("status"));
    assert_eq!(
        bytes,
        vec![16, 0, 0, 0, 3, 0, 0, 0, 2, 0, 0, 0, b's', b't', b'a', b't', b'u', b's', 0, 0]
    );
    assert_eq!(rcon.last_sent_id(), 2);
    assert_eq!(rcon.next_send_id(), 3);
    assert!(is_receive(&rcon.step(Event::Sent)));
    assert_eq!(rcon.last_sent_id(), 3);
    assert_eq!(rcon.next_send_id(), 4);
    assert_eq!(rcon.phase(), Phase::Receiving(Goal::Command));
}

#[test]
fn command_collects_packets_until_empty_body() {
    let mut rcon = logged_in();
    let first = rcon.send_cmd("cvarlist");
    let script = vec![vec![
        reply(3, 0, b"part one"),
        reply(3, 0, b"part two"),
        reply(3, 0, b""),
        reply(3, 0, b"never read"),
    ]];
    let (result, written) = run_against_stub(&mut rcon, first, script);
    assert_eq!(written.len(), 1);
    match result {
        Action::Response(Ok(packets)) => {
            assert_eq!(packets.len(), 3);
            assert_eq!(packets[0].body_text(), "part one");
            assert_eq!(packets[1].body_text(), "part two");
            assert_eq!(packets[2].body_text(), "");
            assert_eq!(packets[0].id(), 3);
            assert_eq!(packets[0].typ(), PacketType::Response);
        }
        other => panic!("expected a response, got {:?}", other),
    }
    assert_eq!(rcon.phase(), Phase::Idle);
}

#[test]
fn command_collects_packets_until_bad_auth() {
    let mut rcon = logged_in();
    let first = rcon.send_cmd("status");
    let script = vec![vec![
        reply(3, 0, b"one"),
        reply(-1, 2, b"denied"),
        reply(3, 0, b"never read"),
    ]];
    let (result, _) = run_against_stub(&mut rcon, first, script);
    match result {
        Action::Response(Ok(packets)) => {
            assert_eq!(packets.len(), 2);
            assert_eq!(packets[1].id(), -1);
            assert_eq!(packets[1].body_text(), "denied");
        }
        other => panic!("expected a response, got {:?}", other),
    }
}

#[test]
fn command_collects_packets_until_data_ends() {
    let mut rcon = logged_in();
    let first = rcon.send_cmd("status");
    let script = vec![vec![reply(3, 0, b"one"), reply(3, 0, b"two")]];
    let (result, _) = run_against_stub(&mut rcon, first, script);
    match result {
        Action::Response(Ok(packets)) => {
            assert_eq!(packets.len(), 2);
            assert_eq!(packets[0].body_text(), "one");
            assert_eq!(packets[1].body_text(), "two");
        }
        other => panic!("expected a response, got {:?}", other),
    }
}

#[test]
fn command_without_answer_gives_no_packets() {
    let mut rcon = logged_in();
    let first = rcon.send_cmd("status");
    let (result, _) = run_against_stub(&mut rcon, first, Vec::new());
    match result {
        Action::Response(Ok(packets)) => assert!(packets.is_empty()),
        other => panic!("expected a response, got {:?}", other),
    }
}

#[test]
fn command_fails_on_undersized_packet() {
    let mut rcon = logged_in();
    let first = rcon.send_cmd("status");
    let mut bad = reply(3, 0, b"two");
    bad[0] = 9;
    let script = vec![vec![reply(3, 0, b"one"), bad]];
    let (result, _) = run_against_stub(&mut rcon, first, script);
    assert!(matches!(
        result,
        Action::Response(Err(RconError::PacketError))
    ));
    assert_eq!(rcon.phase(), Phase::Idle);
    assert_eq!(rcon.last_sent_id(), 3);
    assert_eq!(rcon.next_send_id(), 4);
}

#[test]
fn command_fails_on_read_without_header() {
    for len in 1..12usize {
        let mut rcon = logged_in();
        let _ = sent_bytes(rcon.send_cmd("status"));
        assert!(is_receive(&rcon.step(Event::Sent)));
        assert!(matches!(
            rcon.step(Event::Received(vec![0x41; len])),
            Action::Response(Err(RconError::PacketError))
        ));
    }
}

#[test]
fn read_without_bytes_ends_response() {
    let mut rcon = logged_in();
    let _ = sent_bytes(rcon.send_cmd("status"));
    assert!(is_receive(&rcon.step(Event::Sent)));
    assert!(is_receive(&rcon.step(Event::Received(reply(3, 0, b"a")))));
    match rcon.step(Event::Received(Vec::new())) {
        Action::Response(Ok(packets)) => {
            assert_eq!(packets.len(), 1);
            assert_eq!(packets[0].body_text(), "a");
            assert_eq!(packets[0].id(), 3);
        }
        other => panic!("expected a response, got {:?}", other),
    }
    assert_eq!(rcon.phase(), Phase::Idle);
    assert!(matches!(
        rcon.step(Event::Received(Vec::new())),
        Action::Idle
    ));
}

#[test]
fn read_without_bytes_at_once_gives_no_packets() {
    let mut rcon = logged_in();
    let _ = sent_bytes(rcon.send_cmd("status"));
    assert!(is_receive(&rcon.step(Event::Sent)));
    match rcon.step(Event::Received(Vec::new())) {
        Action::Response(Ok(packets)) => assert!(packets.is_empty()),
        other => panic!("expected a response, got {:?}", other),
    }
}

#[test]
fn two_frames_in_one_read_are_both_collected() {
    let mut rcon = logged_in();
    let _ = sent_bytes(rcon.send_cmd("status"));
    assert!(is_receive(&rcon.step(Event::Sent)));
    let mut data = reply(3, 0, b"part one");
    data.extend_from_slice(&reply(3, 0, b"part two"));
    assert!(is_receive(&rcon.step(Event::Received(data))));
    match rcon.step(Event::ReadEnded) {
        Action::Response(Ok(packets)) => {
            assert_eq!(packets.len(), 2);
            assert_eq!(packets[0].body_text(), "part one");
            assert_eq!(packets[1].body_text(), "part two");
        }
        other => panic!("expected a response, got {:?}", other),
    }
}

#[test]
fn frames_in_one_read_are_collected_up_to_the_last_of_the_response() {
    let mut rcon = logged_in();
    let _ = sent_bytes(rcon.send_cmd("status"));
    assert!(is_receive(&rcon.step(Event::Sent)));
    let mut data = reply(3, 0, b"one");
    data.extend_from_slice(&reply(3, 0, b"two"));
    data.extend_from_slice(&reply(3, 0, b""));
    data.extend_from_slice(&reply(3, 0, b"beyond the end"));
    match rcon.step(Event::Received(data)) {
        Action::Response(Ok(packets)) => {
            assert_eq!(packets.len(), 3);
            assert_eq!(packets[0].body_text(), "one");
            assert_eq!(packets[1].body_text(), "two");
            assert_eq!(packets[2].body_len(), 0);
        }
        other => panic!("expected a response, got {:?}", other),
    }
}

#[test]
fn frames_in_one_read_go_on_in_the_next_read() {
    let mut rcon = logged_in();
    let _ = sent_bytes(rcon.send_cmd("status"));
    assert!(is_receive(&rcon.step(Event::Sent)));
    let mut data = reply(3, 0, b"one");
    data.extend_from_slice(&reply(3, 0, b"two"));
    assert!(is_receive(&rcon.step(Event::Received(data))));
    let mut data = reply(3, 0, b"three");
    data.extend_from_slice(&reply(-1, 0, b"four"));
    match rcon.step(Event::Received(data)) {
        Action::Response(Ok(packets)) => {
            assert_eq!(packets.len(), 4);
            assert_eq!(packets[2].body_text(), "three");
            assert_eq!(packets[3].id(), -1);
        }
        other => panic!("expected a response, got {:?}", other),
    }
}

#[test]
fn read_that_ends_within_closing_bytes_asks_for_more() {
    for cut in 0..3usize {
        let mut rcon = logged_in();
        let _ = sent_bytes(rcon.send_cmd("status"));
        assert!(is_receive(&rcon.step(Event::Sent)));
        let mut data = reply(3, 0, b"one");
        data.truncate(data.len() - cut);
        assert!(is_receive(&rcon.step(Event::Received(data))));
        match rcon.step(Event::ReadEnded) {
            Action::Response(Ok(packets)) => {
                assert_eq!(packets.len(), 1);
                assert_eq!(packets[0].body_text(), "one");
            }
            other => panic!("expected a response, got {:?}", other),
        }
    }
}

#[test]
fn bytes_after_a_frame_that_are_no_packet_fail_the_command() {
    let mut rcon = logged_in();
    let _ = sent_bytes(rcon.send_cmd("status"));
    assert!(is_receive(&rcon.step(Event::Sent)));
    let mut data = reply(3, 0, b"one");
    data.extend_from_slice(&[1, 2, 3]);
    assert!(matches!(
        rcon.step(Event::Received(data)),
        Action::Response(Err(RconError::PacketError))
    ));
    assert_eq!(rcon.phase(), Phase::Idle);

    let mut rcon = logged_in();
    let _ = sent_bytes(rcon.send_cmd("status"));
    assert!(is_receive(&rcon.step(Event::Sent)));
    let mut data = reply(3, 0, b"one");
    data.extend_from_slice(&[0; 40]);
    assert!(matches!(
        rcon.step(Event::Received(data)),
        Action::Response(Err(RconError::PacketError))
    ));
}

#[test]
fn login_answered_by_two_frames_in_one_read() {
    let mut rcon = Rcon::new();
    let _ = sent_bytes(rcon.authenticate_with("pw".to_string()));
    assert!(is_receive(&rcon.step(Event::Sent)));
    let mut data = reply(1, 0, b"x");
    data.extend_from_slice(&reply(-1, 2, b""));
    assert!(matches!(
        rcon.step(Event::Received(data)),
        Action::Authenticated(false)
    ));
    assert!(!rcon.is_authenticated());

    let mut rcon = Rcon::new();
    let _ = sent_bytes(rcon.authenticate_with("pw".to_string()));
    assert!(is_receive(&rcon.step(Event::Sent)));
    let mut data = reply(1, 0, b"x");
    data.extend_from_slice(&reply(1, 2, b""));
    let follow_up = sent_bytes(rcon.step(Event::Received(data)));
    assert_eq!(follow_up, vec![10, 0, 0, 0, 2, 0, 0, 0, 2, 0, 0, 0, 0, 0]);
    assert!(rcon.is_authenticated());
}

#[test]
fn command_fails_when_read_fails() {
    let mut rcon = logged_in();
    let _ = sent_bytes(rcon.send_cmd("status"));
    assert!(is_receive(&rcon.step(Event::Sent)));
    assert!(is_receive(&rcon.step(Event::Received(reply(3, 0, b"one")))));
    assert!(matches!(
        rcon.step(Event::ReadFailed),
        Action::Response(Err(RconError::ConnError))
    ));
    assert_eq!(rcon.phase(), Phase::Idle);
    assert_eq!(rcon.last_sent_id(), 3);
    assert_eq!(rcon.next_send_id(), 4);
}

#[test]
fn login_fails_when_read_fails() {
    let mut rcon = Rcon::new();
    let _ = sent_bytes(rcon.authenticate_with("pw".to_string()));
    assert!(is_receive(&rcon.step(Event::Sent)));
    assert!(matches!(
        rcon.step(Event::ReadFailed),
        Action::Authenticated(false)
    ));
    assert!(!rcon.is_authenticated());
}

#[test]
fn command_fails_when_write_fails() {
    let mut rcon = logged_in();
    let _ = sent_bytes(rcon.send_cmd("status"));
    assert!(matches!(
        rcon.step(Event::SendFailed),
        Action::Response(Err(RconError::ConnError))
    ));
    assert_eq!(rcon.last_sent_id(), 2);
    assert_eq!(rcon.next_send_id(), 3);
    assert_eq!(rcon.phase(), Phase::Idle);
    assert!(rcon.is_authenticated());
}

#[test]
fn command_with_non_ascii_body_is_refused() {
    let mut rcon = logged_in();
    assert!(matches!(
        rcon.send_cmd("say gr\u{fc}\u{df}e"),
        Action::Response(Err(RconError::PacketError))
    ));
    assert_eq!(rcon.next_send_id(), 3);
    assert_eq!(rcon.phase(), Phase::Idle);
}

#[test]
fn command_with_too_long_body_is_refused() {
    let mut rcon = logged_in();
    let body = "x".repeat(4085);
    assert!(matches!(
        rcon.send_cmd(&body),
        Action::Response(Err(RconError::PacketError))
    ));
    assert_eq!(rcon.next_send_id(), 3);
    let body = "x".repeat(4084);
    assert_eq!(sent_bytes(rcon.send_cmd(&body)).len(), 4098);
}

#[test]
fn commands_carry_consecutive_ids() {
    let mut rcon = logged_in();
    for expected in 3..10 {
        let first = rcon.send_cmd("status");
        let script = vec![vec![reply(expected, 0, b"")]];
        let (result, written) = run_against_stub(&mut rcon, first, script);
        assert!(matches!(result, Action::Response(Ok(_))));
        assert_eq!(written[0][4..8], expected.to_le_bytes());
        assert_eq!(rcon.last_sent_id(), expected);
        assert_eq!(rcon.next_send_id(), expected + 1);
    }
}

#[test]
fn event_between_exchanges_changes_nothing() {
    let mut rcon = Rcon::new();
    assert!(matches!(rcon.step(Event::Sent), Action::Idle));
    assert!(matches!(rcon.step(Event::SendFailed), Action::Idle));
    assert!(matches!(rcon.step(Event::ReadEnded), Action::Idle));
    assert!(matches!(rcon.step(Event::ReadFailed), Action::Idle));
    assert!(matches!(
        rcon.step(Event::Received(reply(1, 2, b""))),
        Action::Idle
    ));
    assert_eq!(rcon.last_sent_id(), 0);
    assert_eq!(rcon.next_send_id(), 1);
    assert!(!rcon.is_authenticated());
    assert_eq!(rcon.phase(), Phase::Idle);
}

#[test]
fn unexpected_report_on_a_write_counts_as_failure() {
    let mut rcon = logged_in();
    let _ = sent_bytes(rcon.send_cmd("status"));
    assert!(matches!(
        rcon.step(Event::ReadEnded),
        Action::Response(Err(RconError::ConnError))
    ));
    let _ = sent_bytes(rcon.send_cmd("status"));
    assert!(matches!(
        rcon.step(Event::Received(reply(3, 0, b""))),
        Action::Response(Err(RconError::ConnError))
    ));
    assert_eq!(rcon.next_send_id(), 3);
}

#[test]
fn unexpected_report_on_a_read_counts_as_end_of_data() {
    let mut rcon = logged_in();
    let _ = sent_bytes(rcon.send_cmd("status"));
    assert!(is_receive(&rcon.step(Event::Sent)));
    assert!(is_receive(&rcon.step(Event::Received(reply(3, 0, b"one")))));
    match rcon.step(Event::Sent) {
        Action::Response(Ok(packets)) => assert_eq!(packets.len(), 1),
        other => panic!("expected a response, got {:?}", other),
    }
}

#[test]
fn new_request_gives_up_exchange_under_way() {
    let mut rcon = logged_in();
    let _ = sent_bytes(rcon.send_cmd("first"));
    assert!(is_receive(&rcon.step(Event::Sent)));
    assert!(is_receive(&rcon.step(Event::Received(reply(3, 0, b"stale")))));
    let first = rcon.send_cmd("second");
    let script = vec![vec![reply(4, 0, b"fresh"), reply(4, 0, b"")]];
    let (result, written) = run_against_stub(&mut rcon, first, script);
    assert_eq!(written[0][4..8], 4i32.to_le_bytes());
    match result {
        Action::Response(Ok(packets)) => {
            assert_eq!(packets.len(), 2);
            assert_eq!(packets[0].body_text(), "fresh");
        }
        other => panic!("expected a response, got {:?}", other),
    }
}

#[test]
fn second_login_keeps_session_logged_in() {
    let mut rcon = logged_in();
    let first = rcon.authenticate_with("other".to_string());
    let script = vec![vec![reply(-1, 2, b"")]];
    let (result, _) = run_against_stub(&mut rcon, first, script);
    assert!(matches!(result, Action::Authenticated(false)));
    assert!(rcon.is_authenticated());
    assert_eq!(rcon.last_sent_id(), 1);
    assert_eq!(rcon.next_send_id(), 2);
}

#[test]
fn response_text_is_shown_without_colour_codes() {
    let mut rcon = logged_in();
    let first = rcon.send_cmd("list");
    let text = "\u{a7}6There are \u{a7}c0\u{a7}6 players";
    let script = vec![vec![reply(3, 0, text.as_bytes())]];
    let (result, _) = run_against_stub(&mut rcon, first, script);
    match result {
        Action::Response(Ok(packets)) => {
            assert_eq!(packets[0].body_text(), "There are 0 players");
            assert_eq!(&packets[0].body_bytes()[..], text.as_bytes());
        }
        other => panic!("expected a response, got {:?}", other),
    }
}
