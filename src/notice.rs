//! The lines that the server writes to clients, and the deliveries that
//! carry them.
use vstd::prelude::*;
use crate::registry::Entry;
use crate::registry::Rejection;
use crate::text::decimal;
use crate::text::decimal_text;
use crate::text::same_text;

verus! {

/// What a delivery carries.
#[derive(PartialEq, Eq, Debug)]
pub enum Body {
    /// A line of text.
    Text(String),
    /// The round-trip-time reply. Its text holds a clock reading, which the
    /// caller that writes it takes.
    Rtt,
}

/// One line for one client.
#[derive(PartialEq, Eq, Debug)]
pub struct Delivery {
    /// The nickname of the recipient.
    pub to: String,
    pub body: Body,
}

/// A delivery as the contracts see it: the recipient, and the text, or `None`
/// for the round-trip-time reply.
pub type Sent = (Seq<char>, Option<Seq<char>>);

impl View for Delivery {
    type V = Sent;

    open spec fn view(&self) -> Sent {
        (self.to@, match self.body {
            Body::Text(t) => Some(t@),
            Body::Rtt => None,
        })
    }
}

/// The deliveries of `v` as the contracts see them.
pub open spec fn sent_view(v: Seq<Delivery>) -> Seq<Sent> {
    v.map_values(|d: Delivery| d@)
}

/// A line of text for `to`.
pub fn text_to(to: &str, text: String) -> (r: Delivery)
    ensures
        r@ == (to@, Some(text@)),
{
    Delivery { to: String::from_str(to), body: Body::Text(text) }
}

/// The reply to a handshake refused because the room is full.
pub open spec fn room_full_line() -> Seq<char> {
    "chatting room full. cannot connect\n"@
}

/// The reply to a handshake refused for the nickname's format.
pub open spec fn bad_nickname_line() -> Seq<char> {
    "nickname must be <= 10 characters, English only, no spaces or special chars\n"@
}

/// The reply to a handshake refused because the nickname is taken.
pub open spec fn nickname_taken_line() -> Seq<char> {
    "nickname already used by another user. cannot connect\n"@
}

/// The reply to a handshake refused because every join number is spent.
pub open spec fn exhausted_line() -> Seq<char> {
    "chatting room closed. cannot connect\n"@
}

/// The line that tells a client why its handshake was refused.
pub open spec fn rejection_line(r: Rejection) -> Seq<char> {
    match r {
        Rejection::Full => room_full_line(),
        Rejection::InvalidNickname => bad_nickname_line(),
        Rejection::NicknameInUse => nickname_taken_line(),
        Rejection::Exhausted => exhausted_line(),
    }
}

impl Rejection {
    /// The line that tells the client why its handshake was refused.
    pub fn line(&self) -> (r: String)
        ensures
            r@ == rejection_line(*self),
    {
        match self {
            Rejection::Full => String::from_str("chatting room full. cannot connect\n"),
            Rejection::InvalidNickname => String::from_str(
                "nickname must be <= 10 characters, English only, no spaces or special chars\n",
            ),
            Rejection::NicknameInUse => String::from_str(
                "nickname already used by another user. cannot connect\n",
            ),
            Rejection::Exhausted => String::from_str("chatting room closed. cannot connect\n"),
        }
    }
}

/// The welcome banner for a client that joined, with the occupancy.
pub open spec fn welcome_line(nick: Seq<char>, server_port: u16, count: nat) -> Seq<char> {
    "[Welcome "@ + nick + " to CAU net-class chat room at nsl5.cau.ac.kr:"@ + decimal(
        server_port as nat,
    ) + ". There are "@ + decimal(count) + " users in the room.]\n"@
}

/// Builds the welcome banner.
pub fn welcome_text(nick: &str, server_port: u16, count: usize) -> (r: String)
    ensures
        r@ == welcome_line(nick@, server_port, count as nat),
{
    let mut r = String::from_str("[Welcome ");
    r.append(nick);
    r.append(" to CAU net-class chat room at nsl5.cau.ac.kr:");
    r.append(decimal_text(server_port as usize).as_str());
    r.append(". There are ");
    r.append(decimal_text(count).as_str());
    r.append(" users in the room.]\n");
    r
}

/// The notice to the others that a client joined, with the occupancy.
pub open spec fn joined_line(nick: Seq<char>, ip: Seq<char>, port: u16, count: nat) -> Seq<char> {
    "["@ + nick + " joined from "@ + ip + ":"@ + decimal(port as nat) + ". There are "@ + decimal(
        count,
    ) + " users in the room.]\n"@
}

/// Builds the join notice.
pub fn joined_text(nick: &str, ip: &str, port: u16, count: usize) -> (r: String)
    ensures
        r@ == joined_line(nick@, ip@, port, count as nat),
{
    let mut r = String::from_str("[");
    r.append(nick);
    r.append(" joined from ");
    r.append(ip);
    r.append(":");
    r.append(decimal_text(port as usize).as_str());
    r.append(". There are ");
    r.append(decimal_text(count).as_str());
    r.append(" users in the room.]\n");
    r
}

/// A chat message relayed from `nick`.
pub open spec fn chat_line(nick: Seq<char>, msg: Seq<char>) -> Seq<char> {
    nick + "> "@ + msg + "\n"@
}

/// Builds a relayed chat message.
pub fn chat_text(nick: &str, msg: &str) -> (r: String)
    ensures
        r@ == chat_line(nick@, msg@),
{
    let mut r = String::from_str(nick);
    r.append("> ");
    r.append(msg);
    r.append("\n");
    r
}

/// A message sent by `nick` to one client.
pub open spec fn direct_line(nick: Seq<char>, msg: Seq<char>) -> Seq<char> {
    "from: "@ + nick + "> "@ + msg + "\n"@
}

/// Builds a directed message.
pub fn direct_text(nick: &str, msg: &str) -> (r: String)
    ensures
        r@ == direct_line(nick@, msg@),
{
    let mut r = String::from_str("from: ");
    r.append(nick);
    r.append("> ");
    r.append(msg);
    r.append("\n");
    r
}

/// The error for a command that names a client who is not connected.
pub open spec fn no_such_user_line(nick: Seq<char>) -> Seq<char> {
    "Error: User '"@ + nick + "' does not exist.\n"@
}

/// Builds the error for a missing client.
pub fn no_such_user_text(nick: &str) -> (r: String)
    ensures
        r@ == no_such_user_line(nick@),
{
    let mut r = String::from_str("Error: User '");
    r.append(nick);
    r.append("' does not exist.\n");
    r
}

/// The reply to an unknown or malformed command.
pub open spec fn invalid_command_line() -> Seq<char> {
    "invalid command\n"@
}

/// Builds the reply to an unknown or malformed command.
pub fn invalid_command_text() -> (r: String)
    ensures
        r@ == invalid_command_line(),
{
    String::from_str("invalid command\n")
}

/// The reply to a client that tried to ban itself.
pub open spec fn self_ban_line() -> Seq<char> {
    "Error: You cannot ban yourself.\n"@
}

/// Builds the reply to a self-ban.
pub fn self_ban_text() -> (r: String)
    ensures
        r@ == self_ban_line(),
{
    String::from_str("Error: You cannot ban yourself.\n")
}

/// The notice to a banned client.
pub open spec fn banned_line(by: Seq<char>) -> Seq<char> {
    "you are banned by "@ + by + "\n"@
}

/// Builds the notice to a banned client.
pub fn banned_text(by: &str) -> (r: String)
    ensures
        r@ == banned_line(by@),
{
    let mut r = String::from_str("you are banned by ");
    r.append(by);
    r.append("\n");
    r
}

/// The departure notice, with the occupancy after it.
pub open spec fn left_line(nick: Seq<char>, count: nat) -> Seq<char> {
    "["@ + nick + " left the room. There are "@ + decimal(count) + " users now]\n"@
}

/// Builds the departure notice.
pub fn left_text(nick: &str, count: usize) -> (r: String)
    ensures
        r@ == left_line(nick@, count as nat),
{
    let mut r = String::from_str("[");
    r.append(nick);
    r.append(" left the room. There are ");
    r.append(decimal_text(count).as_str());
    r.append(" users now]\n");
    r
}

/// The notice to a client removed for the forbidden phrase.
pub open spec fn prohibited_line() -> Seq<char> {
    "You sent a prohibited message and will be disconnected.\n"@
}

/// Builds the notice to a client removed for the forbidden phrase.
pub fn prohibited_text() -> (r: String)
    ensures
        r@ == prohibited_line(),
{
    String::from_str("You sent a prohibited message and will be disconnected.\n")
}

/// The notice to the others that a client was removed for the forbidden
/// phrase, with the occupancy after it.
pub open spec fn removed_line(nick: Seq<char>, count: nat) -> Seq<char> {
    "["@ + nick + " was removed for prohibited message. "@ + decimal(count) + " users remain.]\n"@
}

/// Builds the removal notice.
pub fn removed_text(nick: &str, count: usize) -> (r: String)
    ensures
        r@ == removed_line(nick@, count as nat),
{
    let mut r = String::from_str("[");
    r.append(nick);
    r.append(" was removed for prohibited message. ");
    r.append(decimal_text(count).as_str());
    r.append(" users remain.]\n");
    r
}

/// One row of the client list.
pub open spec fn list_row<H>(e: Entry<H>) -> Seq<char> {
    e.nickname@ + ", "@ + e.ip@ + ", "@ + decimal(e.port as nat) + "\n"@
}

/// The rows of the client list for `s`, in order.
pub open spec fn list_rows<H>(s: Seq<Entry<H>>) -> Seq<char>
    decreases s.len(),
{
    if s.len() == 0 {
        Seq::empty()
    } else {
        list_rows(s.drop_last()) + list_row(s.last())
    }
}

/// The reply to LIST: a header, then one row per connected client.
pub open spec fn list_line<H>(s: Seq<Entry<H>>) -> Seq<char> {
    "Connected users:\n"@ + list_rows(s)
}

/// Builds the reply to LIST.
pub fn list_text<H>(entries: &[Entry<H>]) -> (r: String)
    ensures
        r@ == list_line(entries@),
{
    let mut r = String::from_str("Connected users:\n");
    let n = entries.len();
    let mut i: usize = 0;
    while i < n
        invariant
            i <= n,
            n == entries@.len(),
            r@ == "Connected users:\n"@ + list_rows(entries@.subrange(0, i as int)),
        decreases n - i,
    {
        let e = &entries[i];
        r.append(e.nickname.as_str());
        r.append(", ");
        r.append(e.ip.as_str());
        r.append(", ");
        r.append(decimal_text(e.port as usize).as_str());
        r.append("\n");
        proof {
            let s = entries@.subrange(0, i + 1);
            assert(s.drop_last() =~= entries@.subrange(0, i as int));
            assert(s.last() == entries@[i as int]);
        }
        i = i + 1;
    }
    assert(entries@.subrange(0, n as int) =~= entries@);
    r
}

/// One delivery of `text` to each client of `s` but `skip_a` and `skip_b`, in
/// the order of `s`.
pub open spec fn announce<H>(s: Seq<Entry<H>>, skip_a: Seq<char>, skip_b: Seq<char>, text: Seq<char>) -> Seq<Sent>
    decreases s.len(),
{
    if s.len() == 0 {
        Seq::empty()
    } else {
        let rest = announce(s.drop_last(), skip_a, skip_b, text);
        let to = s.last().nickname@;
        if to != skip_a && to != skip_b {
            rest.push((to, Some(text)))
        } else {
            rest
        }
    }
}

/// Appends to `out` one delivery of `text` to each client of `entries` but
/// `skip_a` and `skip_b`.
pub fn announce_to<H>(out: &mut Vec<Delivery>, entries: &[Entry<H>], skip_a: &str, skip_b: &str, text: &str)
    ensures
        sent_view(final(out)@) == sent_view(old(out)@) + announce(entries@, skip_a@, skip_b@, text@),
{
    let n = entries.len();
    let mut i: usize = 0;
    proof {
        assert(entries@.subrange(0, 0) =~= Seq::<Entry<H>>::empty());
        assert(sent_view(out@) =~= sent_view(old(out)@) + announce(entries@.subrange(0, 0), skip_a@, skip_b@, text@));
    }
    while i < n
        invariant
            i <= n,
            n == entries@.len(),
            sent_view(out@) == sent_view(old(out)@) + announce(entries@.subrange(0, i as int), skip_a@, skip_b@, text@),
        decreases n - i,
    {
        let to = entries[i].nickname.as_str();
        let ghost before = out@;
        proof {
            let s = entries@.subrange(0, i + 1);
            assert(s.drop_last() =~= entries@.subrange(0, i as int));
            assert(s.last() == entries@[i as int]);
        }
        if !same_text(to, skip_a) && !same_text(to, skip_b) {
            out.push(text_to(to, String::from_str(text)));
            assert(sent_view(out@) =~= sent_view(before).push(out@.last()@));
        }
        i = i + 1;
    }
    assert(entries@.subrange(0, n as int) =~= entries@);
}

} // verus!
