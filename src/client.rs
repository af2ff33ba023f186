//! The client's side of the protocol: what a line typed by the user sends,
//! and what a line from the server means for the client.
use vstd::prelude::*;
use crate::codec::CMD_BAN;
use crate::codec::CMD_CHAT;
use crate::codec::CMD_EXCEPT;
use crate::codec::CMD_LIST;
use crate::codec::CMD_PING;
use crate::codec::CMD_TO;
use crate::text::same_text;
use crate::text::contains_text;
use crate::text::has_substring;
use crate::text::split_at_space;
use crate::text::split_first_space;
use crate::text::trim;
use crate::text::trimmed;

verus! {

/// What a line typed by the user asks for.
#[derive(PartialEq, Eq, Debug)]
pub enum Action {
    /// Send a frame with this opcode and payload.
    Send { opcode: u8, payload: String },
    /// Show how a command is used; nothing is sent.
    Usage(String),
    /// A backslash command that does not exist; nothing is sent.
    Unknown,
    /// A blank line; nothing is sent.
    Skip,
}

/// An action as the contracts see it.
pub enum Plan {
    Send(u8, Seq<char>),
    Usage(Seq<char>),
    Unknown,
    Skip,
}

impl View for Action {
    type V = Plan;

    open spec fn view(&self) -> Plan {
        match self {
            Action::Send { opcode, payload } => Plan::Send(*opcode, payload@),
            Action::Usage(u) => Plan::Usage(u@),
            Action::Unknown => Plan::Unknown,
            Action::Skip => Plan::Skip,
        }
    }
}

/// The first word of a line: what precedes its first space, or all of it.
pub open spec fn first_word(line: Seq<char>) -> Seq<char> {
    match split_first_space(line) {
        Some((w, _)) => w,
        None => line,
    }
}

/// For a command that takes a nickname and a message, the frame that `rest`
/// (what follows the command word) makes, or the usage line.
pub open spec fn addressed_plan(op: u8, rest: Option<Seq<char>>, usage: Seq<char>) -> Plan {
    match rest {
        Some(r) => if split_first_space(r) is Some {
            Plan::Send(op, r)
        } else {
            Plan::Usage(usage)
        },
        None => Plan::Usage(usage),
    }
}

/// What the typed line `line` asks for. A line that starts with a backslash
/// is a command; any other line that is not blank is a chat message.
pub open spec fn plan_of(line: Seq<char>) -> Plan {
    if line.len() > 0 && line[0] == '\\' {
        let w = first_word(line);
        let rest = match split_first_space(line) {
            Some((_, r)) => Some(r),
            None => None,
        };
        if w == "\\list"@ {
            Plan::Send(CMD_LIST, Seq::empty())
        } else if w == "\\to"@ {
            addressed_plan(CMD_TO, rest, "Usage: \\to <nickname> <message>"@)
        } else if w == "\\except"@ {
            addressed_plan(CMD_EXCEPT, rest, "Usage: \\except <nickname> <message>"@)
        } else if w == "\\ban"@ {
            match rest {
                Some(r) => Plan::Send(CMD_BAN, trimmed(r)),
                None => Plan::Usage("Usage: \\ban <nickname>"@),
            }
        } else if w == "\\ping"@ {
            Plan::Send(CMD_PING, Seq::empty())
        } else {
            Plan::Unknown
        }
    } else if trimmed(line).len() > 0 {
        Plan::Send(CMD_CHAT, line)
    } else {
        Plan::Skip
    }
}

fn addressed(op: u8, rest: Option<String>, usage: &str) -> (r: Action)
    ensures
        r@ == addressed_plan(op, match rest {
            Some(s) => Some(s@),
            None => None,
        }, usage@),
{
    match rest {
        Some(r) => {
            if split_at_space(r.as_str()).is_some() {
                Action::Send { opcode: op, payload: r }
            } else {
                Action::Usage(String::from_str(usage))
            }
        },
        None => Action::Usage(String::from_str(usage)),
    }
}

/// Turns a line typed by the user into what it asks for.
pub fn plan_input(line: &str) -> (r: Action)
    ensures
        r@ == plan_of(line@),
{
    let n = line.unicode_len();
    if n > 0 && line.get_char(0) == '\\' {
        let (word, rest) = match split_at_space(line) {
            Some((w, r)) => (w, Some(r)),
            None => (String::from_str(line), None),
        };
        if same_text(word.as_str(), "\\list") {
            Action::Send { opcode: CMD_LIST, payload: String::new() }
        } else if same_text(word.as_str(), "\\to") {
            addressed(CMD_TO, rest, "Usage: \\to <nickname> <message>")
        } else if same_text(word.as_str(), "\\except") {
            addressed(CMD_EXCEPT, rest, "Usage: \\except <nickname> <message>")
        } else if same_text(word.as_str(), "\\ban") {
            match rest {
                Some(r) => Action::Send { opcode: CMD_BAN, payload: trim(r.as_str()) },
                None => Action::Usage(String::from_str("Usage: \\ban <nickname>")),
            }
        } else if same_text(word.as_str(), "\\ping") {
            Action::Send { opcode: CMD_PING, payload: String::new() }
        } else {
            Action::Unknown
        }
    } else if trim(line).unicode_len() > 0 {
        Action::Send { opcode: CMD_CHAT, payload: String::from_str(line) }
    } else {
        Action::Skip
    }
}

/// What a line from the server means for the client.
#[derive(PartialEq, Eq, Structural, Debug, Clone, Copy)]
pub enum Heard {
    /// The notice of the client's own departure: not shown.
    Hide,
    /// An ordinary line: shown.
    Show,
    /// The client was banned or removed: shown, then the client stops.
    ShowAndStop,
}

/// The part of the departure notice that names the client itself.
pub open spec fn own_departure(nick: Seq<char>) -> Seq<char> {
    nick + " left the room"@
}

/// How the client named `nick` treats the server line `line`.
pub open spec fn heard_of(line: Seq<char>, nick: Seq<char>) -> Heard {
    if has_substring(line, own_departure(nick)) {
        Heard::Hide
    } else if has_substring(line, "you are banned by"@) || has_substring(
        line,
        "You sent a prohibited message"@,
    ) {
        Heard::ShowAndStop
    } else {
        Heard::Show
    }
}

/// Decides how the client named `nick` treats the server line `line`.
pub fn classify_line(line: &str, nick: &str) -> (r: Heard)
    ensures
        r == heard_of(line@, nick@),
{
    let mut own = String::from_str(nick);
    own.append(" left the room");
    if contains_text(line, own.as_str()) {
        Heard::Hide
    } else if contains_text(line, "you are banned by") || contains_text(
        line,
        "You sent a prohibited message",
    ) {
        Heard::ShowAndStop
    } else {
        Heard::Show
    }
}

/// Whether the server's first line refuses the handshake.
pub open spec fn refused(line: Seq<char>) -> bool {
    has_substring(line, "cannot connect"@)
}

/// Tests the server's first line for a refusal.
pub fn is_refusal(line: &str) -> (r: bool)
    ensures
        r == refused(line@),
{
    contains_text(line, "cannot connect")
}

} // verus!
