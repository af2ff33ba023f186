use chatroom::client::classify_line;
use chatroom::client::is_refusal;
use chatroom::client::plan_input;
use chatroom::client::Action;
use chatroom::client::Heard;
use chatroom::codec::decode_frame;
use chatroom::codec::encode_frame;
use chatroom::moderation::contains_prohibited_content;
use chatroom::moderation::is_prohibited_lowered;
use chatroom::registry::is_valid_nickname;
use chatroom::text::same_text;
use chatroom::text::contains_text;
use chatroom::text::decimal_text;
use chatroom::text::split_at_space;
use chatroom::text::trim;
use chatroom::text::trim_end;

#[test]
fn decode_splits_opcode_and_payload() {
    assert_eq!(decode_frame(b"\x07hello\n"), Some((7, "hello".to_string())));
    assert_eq!(decode_frame(b"\x02bob hi"), Some((2, "bob hi".to_string())));
    assert_eq!(decode_frame(b"\x01\n"), Some((1, String::new())));
    assert_eq!(decode_frame(b"\n"), None);
    assert_eq!(decode_frame(b""), None);
}

#[test]
fn decode_is_lenient_with_bad_utf8() {
    assert_eq!(decode_frame(&[7, b'a', 0xff, b'b', b'\n']), Some((7, "a\u{fffd}b".to_string())));
    assert_eq!(decode_frame("\u{7}héllo\n".as_bytes()), Some((7, "héllo".to_string())));
}

#[test]
fn encode_frames_commands() {
    assert_eq!(encode_frame(2, "bob hi"), b"\x02bob hi\n".to_vec());
    assert_eq!(encode_frame(1, ""), vec![1, b'\n']);
    assert_eq!(encode_frame(7, "é"), vec![7, 0xc3, 0xa9, b'\n']);
}

#[test]
fn moderation_ignores_case() {
    assert!(contains_prohibited_content("I Hate Professor Kim"));
    assert!(contains_prohibited_content("well... i hate professor"));
    assert!(!contains_prohibited_content("I hate profs? no, I hate_professor"));
    assert!(!contains_prohibited_content(""));
    assert!(is_prohibited_lowered("so i hate professor x"));
    assert!(!is_prohibited_lowered("I HATE PROFESSOR"));
}

#[test]
fn nickname_format() {
    assert!(is_valid_nickname("alice"));
    assert!(is_valid_nickname("A1b2C3d4E5"));
    assert!(!is_valid_nickname(""));
    assert!(!is_valid_nickname("A1b2C3d4E5f"));
    assert!(!is_valid_nickname("al ice"));
    assert!(!is_valid_nickname("ålice"));
}

#[test]
fn text_helpers() {
    assert_eq!(trim_end("bob \t\r\n"), "bob");
    assert_eq!(trim("\u{3000} bob  "), "bob");
    assert_eq!(trim("   "), "");
    assert_eq!(split_at_space("bob hello world"), Some(("bob".to_string(), "hello world".to_string())));
    assert_eq!(split_at_space(" x"), Some((String::new(), "x".to_string())));
    assert_eq!(split_at_space("bob"), None);
    assert!(contains_text("abcabd", "abd"));
    assert!(contains_text("abc", ""));
    assert!(!contains_text("ab", "abc"));
    assert!(same_text("a", "a"));
    assert!(!same_text("a", "ab"));
    assert_eq!(decimal_text(0), "0");
    assert_eq!(decimal_text(4), "4");
    assert_eq!(decimal_text(40960), "40960");
}

#[test]
fn typed_lines_become_frames() {
    let send = |op: u8, p: &str| Action::Send { opcode: op, payload: p.to_string() };
    assert_eq!(plan_input("\\list"), send(1, ""));
    assert_eq!(plan_input("\\to bob hello there"), send(2, "bob hello there"));
    assert_eq!(plan_input("\\to bob"), Action::Usage("Usage: \\to <nickname> <message>".to_string()));
    assert_eq!(plan_input("\\to"), Action::Usage("Usage: \\to <nickname> <message>".to_string()));
    assert_eq!(plan_input("\\except bob hi"), send(3, "bob hi"));
    assert_eq!(plan_input("\\except"), Action::Usage("Usage: \\except <nickname> <message>".to_string()));
    assert_eq!(plan_input("\\ban  bob "), send(4, "bob"));
    assert_eq!(plan_input("\\ban"), Action::Usage("Usage: \\ban <nickname>".to_string()));
    assert_eq!(plan_input("\\ping"), send(5, ""));
    assert_eq!(plan_input("\\quit"), Action::Unknown);
    assert_eq!(plan_input("hello all"), send(7, "hello all"));
    assert_eq!(plan_input("   "), Action::Skip);
}

#[test]
fn server_lines_are_classified() {
    assert_eq!(classify_line("[alice left the room. There are 1 users now]\n", "alice"), Heard::Hide);
    assert_eq!(classify_line("[bob left the room. There are 1 users now]\n", "alice"), Heard::Show);
    assert_eq!(classify_line("you are banned by bob\n", "alice"), Heard::ShowAndStop);
    assert_eq!(
        classify_line("You sent a prohibited message and will be disconnected.\n", "alice"),
        Heard::ShowAndStop
    );
    assert!(is_refusal("chatting room full. cannot connect\n"));
    assert!(!is_refusal("[Welcome alice to the room]\n"));
}
