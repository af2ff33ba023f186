use chatroom::codec::encode_frame;
use chatroom::codec::CMD_BAN;
use chatroom::codec::CMD_CHAT;
use chatroom::codec::CMD_EXCEPT;
use chatroom::codec::CMD_EXIT;
use chatroom::codec::CMD_LIST;
use chatroom::codec::CMD_PING;
use chatroom::codec::CMD_TO;
use chatroom::notice::Body;
use chatroom::notice::Delivery;
use chatroom::registry::Registry;
use chatroom::registry::Rejection;
use chatroom::session::Session;

fn room(capacity: usize, names: &[&str]) -> (Registry<u32>, Vec<Session>) {
    let mut reg: Registry<u32> = Registry::new(capacity);
    let mut sessions = Vec::new();
    for (i, name) in names.iter().enumerate() {
        let line = format!("{}\n", name);
        let (s, _) = Session::handshake(&mut reg, &line, "10.0.0.1".to_string(), 5000 + i as u16, i as u32, 8080)
            .expect("handshake");
        sessions.push(s);
    }
    (reg, sessions)
}

fn text(to: &str, t: &str) -> Delivery {
    Delivery { to: to.to_string(), body: Body::Text(t.to_string()) }
}

fn names(reg: &Registry<u32>) -> Vec<String> {
    reg.entries().iter().map(|e| e.nickname.clone()).collect()
}

#[test]
fn handshake_welcomes_and_announces() {
    let (mut reg, _) = room(4, &["alice", "bob"]);
    let (s, out) = Session::handshake(&mut reg, "carol \r\n", "192.168.0.7".to_string(), 40000, 9, 8080).unwrap();
    assert_eq!(s.nickname(), "carol");
    assert!(s.is_active());
    assert_eq!(
        out,
        vec![
            text("carol", "[Welcome carol to CAU net-class chat room at nsl5.cau.ac.kr:8080. There are 3 users in the room.]\n"),
            text("alice", "[carol joined from 192.168.0.7:40000. There are 3 users in the room.]\n"),
            text("bob", "[carol joined from 192.168.0.7:40000. There are 3 users in the room.]\n"),
        ]
    );
    assert_eq!(reg.handle("carol"), Some(&9));
}

#[test]
fn fifth_client_is_refused_when_full() {
    let (mut reg, _) = room(4, &["alice", "bob", "carol", "dave"]);
    assert!(reg.is_full());
    let r = Session::handshake(&mut reg, "erin\n", "10.0.0.2".to_string(), 1, 7, 8080);
    assert_eq!(r.err(), Some(Rejection::Full));
    assert_eq!(reg.len(), 4);
    assert!(!reg.contains("erin"));
    assert_eq!(Rejection::Full.line(), "chatting room full. cannot connect\n");
}

#[test]
fn bad_and_duplicate_nicknames_are_refused() {
    let (mut reg, _) = room(4, &["alice"]);
    for bad in ["", "\n", "elevenchars", "bad name", "héllo", "a-b", " lead"] {
        let r = Session::handshake(&mut reg, bad, "h".to_string(), 1, 1, 8080);
        assert_eq!(r.err(), Some(Rejection::InvalidNickname), "{:?}", bad);
    }
    let r = Session::handshake(&mut reg, "alice\n", "h".to_string(), 1, 1, 8080);
    assert_eq!(r.err(), Some(Rejection::NicknameInUse));
    assert_eq!(reg.len(), 1);
    assert!(Session::handshake(&mut reg, "Ab3456789Z", "h".to_string(), 1, 1, 8080).is_ok());
    assert_eq!(
        Rejection::InvalidNickname.line(),
        "nickname must be <= 10 characters, English only, no spaces or special chars\n"
    );
    assert_eq!(Rejection::NicknameInUse.line(), "nickname already used by another user. cannot connect\n");
}

#[test]
fn directed_message_reaches_target_only() {
    let (mut reg, mut s) = room(4, &["alice", "bob", "carol"]);
    let out = s[0].receive(&mut reg, &encode_frame(CMD_TO, "bob hello"));
    assert_eq!(out, vec![text("bob", "from: alice> hello\n")]);
    let out = s[0].receive(&mut reg, &encode_frame(CMD_TO, "zed hello"));
    assert_eq!(out, vec![text("alice", "Error: User 'zed' does not exist.\n")]);
    let out = s[0].receive(&mut reg, &encode_frame(CMD_TO, "bobhello"));
    assert!(out.is_empty());
    assert_eq!(reg.len(), 3);
}

#[test]
fn except_skips_sender_and_named_client() {
    let (mut reg, mut s) = room(4, &["alice", "bob", "carol"]);
    let out = s[0].receive(&mut reg, &encode_frame(CMD_EXCEPT, "bob secret"));
    assert_eq!(out, vec![text("carol", "alice> secret\n")]);
}

#[test]
fn except_of_self_is_invalid() {
    let (mut reg, mut s) = room(4, &["alice", "bob", "carol"]);
    let out = s[0].receive(&mut reg, &encode_frame(CMD_EXCEPT, "alice msg"));
    assert_eq!(out, vec![text("alice", "invalid command\n")]);
    let out = s[0].receive(&mut reg, &encode_frame(CMD_EXCEPT, "nospace"));
    assert_eq!(out, vec![text("alice", "invalid command\n")]);
    let out = s[0].receive(&mut reg, &encode_frame(CMD_EXCEPT, "zed msg"));
    assert_eq!(out, vec![text("alice", "Error: User 'zed' does not exist.\n")]);
}

#[test]
fn chat_reaches_every_other_client() {
    let (mut reg, mut s) = room(4, &["alice", "bob", "carol"]);
    let mut heard: Vec<Delivery> = Vec::new();
    heard.extend(s[0].receive(&mut reg, &encode_frame(CMD_CHAT, "hi")));
    heard.extend(s[1].receive(&mut reg, &encode_frame(CMD_CHAT, "yo")));
    let to_carol: Vec<&Delivery> = heard.iter().filter(|d| d.to == "carol").collect();
    assert_eq!(to_carol, vec![&text("carol", "alice> hi\n"), &text("carol", "bob> yo\n")]);
    let to_alice: Vec<&Delivery> = heard.iter().filter(|d| d.to == "alice").collect();
    assert_eq!(to_alice, vec![&text("alice", "bob> yo\n")]);
    assert_eq!(heard.len(), 4);
    assert_eq!(reg.len(), 3);
}

#[test]
fn list_shows_every_client() {
    let (mut reg, mut s) = room(4, &["alice", "bob"]);
    let out = s[1].receive(&mut reg, &[CMD_LIST, b'\n']);
    assert_eq!(out, vec![text("bob", "Connected users:\nalice, 10.0.0.1, 5000\nbob, 10.0.0.1, 5001\n")]);
}

#[test]
fn ping_replies_to_sender() {
    let (mut reg, mut s) = room(4, &["alice", "bob"]);
    let out = s[0].receive(&mut reg, &[CMD_PING, b'\n']);
    assert_eq!(out, vec![Delivery { to: "alice".to_string(), body: Body::Rtt }]);
}

#[test]
fn ban_removes_target() {
    let (mut reg, mut s) = room(4, &["alice", "bob", "carol"]);
    let out = s[0].receive(&mut reg, &encode_frame(CMD_BAN, " bob "));
    assert_eq!(
        out,
        vec![
            text("bob", "you are banned by alice\n"),
            text("alice", "[bob left the room. There are 2 users now]\n"),
            text("carol", "[bob left the room. There are 2 users now]\n"),
        ]
    );
    assert_eq!(names(&reg), vec!["alice", "carol"]);
    let out = s[1].receive(&mut reg, &encode_frame(CMD_CHAT, "still here?"));
    assert!(out.is_empty());
    assert!(!s[1].is_active());
    assert!(s[1].close(&mut reg).is_empty());
    assert_eq!(reg.len(), 2);
}

#[test]
fn ban_of_missing_or_self_is_an_error() {
    let (mut reg, mut s) = room(4, &["alice", "bob"]);
    let out = s[0].receive(&mut reg, &encode_frame(CMD_BAN, "zed"));
    assert_eq!(out, vec![text("alice", "Error: User 'zed' does not exist.\n")]);
    let out = s[0].receive(&mut reg, &encode_frame(CMD_BAN, "alice"));
    assert_eq!(out, vec![text("alice", "Error: You cannot ban yourself.\n")]);
    assert_eq!(names(&reg), vec!["alice", "bob"]);
}

#[test]
fn forbidden_phrase_removes_sender() {
    let (mut reg, mut s) = room(4, &["alice", "bob", "carol"]);
    let out = s[0].receive(&mut reg, &encode_frame(CMD_CHAT, "Well, I HATE Professor X"));
    assert_eq!(
        out,
        vec![
            text("alice", "You sent a prohibited message and will be disconnected.\n"),
            text("bob", "[alice was removed for prohibited message. 2 users remain.]\n"),
            text("carol", "[alice was removed for prohibited message. 2 users remain.]\n"),
        ]
    );
    assert!(!s[0].is_active());
    assert_eq!(names(&reg), vec!["bob", "carol"]);
}

#[test]
fn forbidden_phrase_in_any_command() {
    let (mut reg, mut s) = room(4, &["alice", "bob"]);
    let out = s[1].receive(&mut reg, &encode_frame(CMD_TO, "alice i hate professor"));
    assert_eq!(out[0], text("bob", "You sent a prohibited message and will be disconnected.\n"));
    assert_eq!(names(&reg), vec!["alice"]);
}

#[test]
fn exit_leaves_and_is_final() {
    let (mut reg, mut s) = room(4, &["alice", "bob"]);
    let out = s[0].receive(&mut reg, &[CMD_EXIT, b'\n']);
    assert_eq!(out, vec![text("bob", "[alice left the room. There are 1 users now]\n")]);
    assert!(!s[0].is_active());
    assert!(s[0].receive(&mut reg, &[CMD_EXIT, b'\n']).is_empty());
    assert!(s[0].close(&mut reg).is_empty());
    assert_eq!(names(&reg), vec!["bob"]);
}

#[test]
fn close_announces_departure() {
    let (mut reg, mut s) = room(4, &["alice", "bob"]);
    let out = s[1].close(&mut reg);
    assert_eq!(out, vec![text("alice", "[bob left the room. There are 1 users now]\n")]);
    assert!(!s[1].is_active());
    assert!(s[1].close(&mut reg).is_empty());
}

#[test]
fn unknown_opcode_and_short_frames() {
    let (mut reg, mut s) = room(4, &["alice", "bob"]);
    let out = s[0].receive(&mut reg, &[9, b'x', b'\n']);
    assert_eq!(out, vec![text("alice", "invalid command\n")]);
    assert!(s[0].receive(&mut reg, &[]).is_empty());
    assert!(s[0].receive(&mut reg, &[b'\n']).is_empty());
    assert!(s[0].is_active());
}

#[test]
fn registry_remove_and_find() {
    let (mut reg, _) = room(3, &["alice", "bob", "carol"]);
    assert_eq!(reg.capacity(), 3);
    assert_eq!(reg.find("bob"), Some(1));
    let e = reg.remove("bob").unwrap();
    assert_eq!(e.nickname, "bob");
    assert_eq!(e.handle, 1);
    assert_eq!(e.id, 1);
    assert!(reg.remove("bob").is_none());
    assert_eq!(reg.find("carol"), Some(1));
    assert_eq!(reg.handle("zed"), None);
}

#[test]
fn register_reports_occupancy() {
    let mut reg: Registry<()> = Registry::new(2);
    assert_eq!(reg.register("ann\n", "h".to_string(), 1, ()), Ok(1));
    assert_eq!(reg.register("ben", "h".to_string(), 2, ()), Ok(2));
    assert_eq!(reg.register("cid", "h".to_string(), 3, ()), Err(Rejection::Full));
}

#[test]
fn banned_session_cannot_touch_newcomer_with_same_name() {
    let (mut reg, mut s) = room(4, &["alice", "bob"]);
    let out = s[1].receive(&mut reg, &encode_frame(CMD_BAN, "alice"));
    assert_eq!(out[0], text("alice", "you are banned by bob\n"));
    assert!(s[0].is_active());
    let (mut newcomer, _) = Session::handshake(&mut reg, "alice\n", "10.0.0.9".to_string(), 7000, 42, 8080).unwrap();
    assert!(s[0].receive(&mut reg, &encode_frame(CMD_CHAT, "hello")).is_empty());
    assert!(s[0].receive(&mut reg, &[CMD_EXIT, b'\n']).is_empty());
    assert!(s[0].close(&mut reg).is_empty());
    assert!(!s[0].is_active());
    assert_eq!(names(&reg), vec!["bob", "alice"]);
    assert_eq!(reg.handle("alice"), Some(&42));
    let out = newcomer.receive(&mut reg, &encode_frame(CMD_CHAT, "back"));
    assert_eq!(out, vec![text("bob", "alice> back\n")]);
}

#[test]
fn join_numbers_are_never_reused() {
    let (mut reg, mut s) = room(4, &["alice"]);
    assert!(s[0].close(&mut reg).is_empty());
    let (again, _) = Session::handshake(&mut reg, "alice", "h".to_string(), 1, 5, 8080).unwrap();
    assert!(again.is_active());
    assert_eq!(reg.entries()[0].id, 1);
    assert_eq!(Rejection::Exhausted.line(), "chatting room closed. cannot connect\n");
}
