//! The wire format. A client-to-server frame is one opcode byte, a UTF-8
//! payload and a newline; server-to-client messages are plain text lines.
use vstd::prelude::*;
use vstd::utf8::decode_utf8;
use vstd::utf8::valid_utf8;
use vstd::string::StringSliceAdditionalSpecFns;

verus! {

/// Asks for the list of connected clients.
pub const CMD_LIST: u8 = 1;

/// Sends a message to one client.
pub const CMD_TO: u8 = 2;

/// Sends a message to every client but one.
pub const CMD_EXCEPT: u8 = 3;

/// Removes another client from the room.
pub const CMD_BAN: u8 = 4;

/// Asks for a round-trip-time reply.
pub const CMD_PING: u8 = 5;

/// Leaves the room.
pub const CMD_EXIT: u8 = 6;

/// Sends a message to every other client.
pub const CMD_CHAT: u8 = 7;

/// The line delimiter.
pub const NEWLINE: u8 = 10;

/// What `String::from_utf8_lossy` makes of `b`: each invalid sequence is
/// replaced by U+FFFD.
pub uninterp spec fn utf8_lossy(b: Seq<u8>) -> Seq<char>;

/// Relies on `String::from_utf8_lossy`: the text of `b`, with invalid
/// sequences replaced; valid UTF-8 is decoded unchanged.
#[verifier::external_body]
fn lossy_text(b: &[u8]) -> (r: String)
    ensures
        r@ == utf8_lossy(b@),
        valid_utf8(b@) ==> r@ == decode_utf8(b@),
{
    String::from_utf8_lossy(b).into_owned()
}

/// The payload bytes of a raw frame: what follows the opcode byte, without
/// the closing newline where there is one.
pub open spec fn payload_bytes(raw: Seq<u8>) -> Seq<u8> {
    if raw.last() == NEWLINE {
        raw.subrange(1, raw.len() - 1)
    } else {
        raw.subrange(1, raw.len() as int)
    }
}

/// Decodes one raw frame, as read up to and including its newline. A frame of
/// zero or one byte carries nothing and gives `None`; any other gives its
/// opcode and its payload, decoded leniently.
pub fn decode_frame(raw: &[u8]) -> (r: Option<(u8, String)>)
    ensures
        raw@.len() <= 1 <==> r is None,
        r matches Some(f) ==> f.0 == raw@[0] && f.1@ == utf8_lossy(payload_bytes(raw@)),
        r matches Some(f) ==> (valid_utf8(payload_bytes(raw@)) ==> f.1@ == decode_utf8(payload_bytes(raw@))),
{
    let n = raw.len();
    if n <= 1 {
        return None;
    }
    let end: usize = if raw[n - 1] == NEWLINE {
        n - 1
    } else {
        n
    };
    let payload = &raw[1..end];
    assert(payload@ == payload_bytes(raw@));
    Some((raw[0], lossy_text(payload)))
}

/// The bytes of a client-to-server frame: the opcode, the UTF-8 encoding of
/// the payload, and a newline.
pub open spec fn frame_bytes(opcode: u8, payload: Seq<char>) -> Seq<u8> {
    seq![opcode] + vstd::utf8::encode_utf8(payload) + seq![NEWLINE]
}

/// Encodes a client-to-server frame.
pub fn encode_frame(opcode: u8, payload: &str) -> (r: Vec<u8>)
    ensures
        r@ == frame_bytes(opcode, payload@),
{
    let bytes = payload.as_bytes();
    let mut r: Vec<u8> = Vec::new();
    r.push(opcode);
    let mut i: usize = 0;
    while i < bytes.len()
        invariant
            i <= bytes@.len(),
            bytes@ == payload.spec_bytes(),
            r@ == seq![opcode] + bytes@.subrange(0, i as int),
        decreases bytes@.len() - i,
    {
        r.push(bytes[i]);
        assert(bytes@.subrange(0, i + 1) =~= bytes@.subrange(0, i as int).push(bytes@[i as int]));
        i = i + 1;
    }
    r.push(NEWLINE);
    assert(bytes@.subrange(0, i as int) =~= bytes@);
    assert(r@ =~= frame_bytes(opcode, payload@));
    r
}

} // verus!
