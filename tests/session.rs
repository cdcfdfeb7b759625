use twitch_rs::config::AuthConfig;
use twitch_rs::message::{CommandType, ParseError};
use twitch_rs::session::{FrameAction, Session, SessionState};

fn config() -> AuthConfig {
    AuthConfig {
        capabilities: "twitch.tv/tags twitch.tv/commands".to_string(),
        broadcaster: "#ronni".to_string(),
        username: "bot".to_string(),
        token: "oauth:abc".to_string(),
    }
}

#[test]
fn handshake_frames_in_order() {
    let mut s = Session::new(config());
    assert_eq!(s.state, SessionState::Connecting);
    let frames = s.on_open();
    assert_eq!(
        frames,
        vec![
            "CAP REQ :twitch.tv/tags twitch.tv/commands".to_string(),
            "PASS oauth:abc".to_string(),
            "NICK bot".to_string(),
            "JOIN #ronni".to_string(),
        ]
    );
    assert_eq!(s.state, SessionState::Joined);
}

#[test]
fn close_before_joining_still_leaves() {
    let mut s = Session::new(config());
    assert_eq!(s.on_close(), Some("PART #ronni".to_string()));
    assert_eq!(s.state, SessionState::Closed);
    assert_eq!(s.on_close(), None);
}

#[test]
fn close_leaves_the_channel_once() {
    let mut s = Session::new(config());
    s.on_open();
    assert_eq!(s.on_close(), Some("PART #ronni".to_string()));
    assert_eq!(s.state, SessionState::Closed);
    assert_eq!(s.on_close(), None);
}

#[test]
fn keepalive_ends_the_frame() {
    let s = Session::new(config());
    let actions = s.on_frame("PING :tmi.twitch.tv\r\nPRIVMSG #x :hi\r\n");
    assert_eq!(actions.len(), 1);
    match &actions[0] {
        FrameAction::Reply(f) => assert_eq!(f, "PONG :tmi.twitch.tv"),
        other => panic!("unexpected {:?}", other),
    }
}

#[test]
fn batched_lines_dispatch_in_order() {
    let s = Session::new(config());
    let frame = ":a!a@a.tmi.twitch.tv PRIVMSG #x :first\r\n:b!b@b.tmi.twitch.tv PRIVMSG #x :second\r\n";
    let actions = s.on_frame(frame);
    assert_eq!(actions.len(), 2);
    let expect = [("a", "#x :first"), ("b", "#x :second")];
    for (action, (nick, content)) in actions.iter().zip(expect.iter()) {
        match action {
            FrameAction::Dispatch(m) => {
                assert_eq!(m.command.command_type, CommandType::PRIVMSG);
                assert_eq!(m.prefix.nick.as_deref(), Some(*nick));
                assert_eq!(m.command.content.as_deref(), Some(*content));
            }
            other => panic!("unexpected {:?}", other),
        }
    }
}

#[test]
fn placeholders_are_dropped() {
    let s = Session::new(config());
    let actions = s.on_frame(":a!a@a.tmi.twitch.tv PRIVMSG #x :hi\u{e0000}\r\n");
    assert_eq!(actions.len(), 1);
    match &actions[0] {
        FrameAction::Dispatch(m) => assert_eq!(m.command.content.as_deref(), Some("#x :hi")),
        other => panic!("unexpected {:?}", other),
    }
}

#[test]
fn empty_line_ends_the_frame() {
    let s = Session::new(config());
    let actions = s.on_frame(":tmi.twitch.tv NOTICE #x :one\r\n\r\n:tmi.twitch.tv NOTICE #x :two");
    assert_eq!(actions.len(), 1);
    assert!(s.on_frame("").is_empty());
    assert!(s.on_frame("   \r\nPING").is_empty());
}

#[test]
fn malformed_line_is_reported_and_the_frame_goes_on() {
    let s = Session::new(config());
    let actions = s.on_frame("garbage\r\n:tmi.twitch.tv NOTICE #x :two");
    assert_eq!(actions.len(), 2);
    assert!(matches!(actions[0], FrameAction::Malformed(ParseError::MissingPrefixEnd)));
    assert!(matches!(actions[1], FrameAction::Dispatch(_)));
}

#[test]
fn lines_are_trimmed() {
    let s = Session::new(config());
    let actions = s.on_frame("  :tmi.twitch.tv NOTICE #x :one \t");
    assert_eq!(actions.len(), 1);
    match &actions[0] {
        FrameAction::Dispatch(m) => assert_eq!(m.command.content.as_deref(), Some("#x :one")),
        other => panic!("unexpected {:?}", other),
    }
}

#[test]
fn probe_can_leave_the_rest_of_the_frame() {
    let mut s = Session::new(config());
    assert!(s.probe_ends_frame);
    s.probe_ends_frame = false;
    let actions = s.on_frame("PING :tmi.twitch.tv\r\n:tmi.twitch.tv NOTICE #x :hi\r\n");
    assert_eq!(actions.len(), 2);
    assert!(matches!(&actions[0], FrameAction::Reply(f) if f == "PONG :tmi.twitch.tv"));
    assert!(matches!(actions[1], FrameAction::Dispatch(_)));
}

#[test]
fn three_batched_lines_dispatch_in_order() {
    let s = Session::new(config());
    let frame = ":tmi.twitch.tv NOTICE #x :1\r\n:tmi.twitch.tv NOTICE #x :2\r\n:tmi.twitch.tv NOTICE #x :3\r\n";
    let actions = s.on_frame(frame);
    assert_eq!(actions.len(), 3);
    for (i, action) in actions.iter().enumerate() {
        match action {
            FrameAction::Dispatch(m) => {
                assert_eq!(m.command.content, Some(format!("#x :{}", i + 1)));
            }
            other => panic!("unexpected {:?}", other),
        }
    }
}
