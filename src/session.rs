//! One client's session: the handshake that admits it, the dispatch of its
//! commands against the registry, and its end.
use vstd::prelude::*;
use vstd::utf8::decode_utf8;
use vstd::utf8::valid_utf8;
use crate::codec::decode_frame;
use crate::codec::payload_bytes;
use crate::codec::utf8_lossy;
use crate::codec::CMD_BAN;
use crate::codec::CMD_CHAT;
use crate::codec::CMD_EXCEPT;
use crate::codec::CMD_EXIT;
use crate::codec::CMD_LIST;
use crate::codec::CMD_PING;
use crate::codec::CMD_TO;
use crate::moderation::contains_prohibited_content;
use crate::moderation::prohibited;
use crate::notice::announce;
use crate::notice::announce_to;
use crate::notice::banned_line;
use crate::notice::banned_text;
use crate::notice::chat_line;
use crate::notice::chat_text;
use crate::notice::direct_line;
use crate::notice::direct_text;
use crate::notice::joined_line;
use crate::notice::joined_text;
use crate::notice::left_line;
use crate::notice::left_text;
use crate::notice::list_line;
use crate::notice::list_text;
use crate::notice::no_such_user_line;
use crate::notice::no_such_user_text;
use crate::notice::invalid_command_line;
use crate::notice::invalid_command_text;
use crate::notice::prohibited_line;
use crate::notice::prohibited_text;
use crate::notice::removed_line;
use crate::notice::removed_text;
use crate::notice::self_ban_line;
use crate::notice::self_ban_text;
use crate::notice::sent_view;
use crate::notice::text_to;
use crate::notice::welcome_line;
use crate::notice::welcome_text;
use crate::notice::Body;
use crate::notice::Delivery;
use crate::notice::Sent;
use crate::registry::owns;
use crate::registry::registered;
use crate::registry::without;
use crate::registry::Entry;
use crate::registry::Registry;
use crate::registry::Rejection;
use crate::text::split_at_space;
use crate::text::split_first_space;
use crate::text::same_text;
use crate::text::trim;
use crate::text::trim_end;
use crate::text::trimmed;
use crate::text::trimmed_end;

verus! {

/// What one event does: the registry after it, the deliveries it makes, in
/// order, and whether the session ends.
pub struct Reaction<H> {
    pub clients: Seq<Entry<H>>,
    pub sent: Seq<Sent>,
    pub ends: bool,
}

/// The registry stays as it is, the session goes on, and `sent` is delivered.
pub open spec fn stay<H>(r: Seq<Entry<H>>, sent: Seq<Sent>) -> Reaction<H> {
    Reaction { clients: r, sent, ends: false }
}

/// `s` leaves: it is removed and the others hear of it, with the new count.
pub open spec fn departure<H>(r: Seq<Entry<H>>, s: Seq<char>) -> Reaction<H> {
    let rest = without(r, s);
    Reaction { clients: rest, sent: announce(rest, s, s, left_line(s, rest.len())), ends: true }
}

/// `s` sent the forbidden phrase: it is told so and removed, and every other
/// client is told of the removal, with the new count.
pub open spec fn expulsion<H>(r: Seq<Entry<H>>, s: Seq<char>) -> Reaction<H> {
    let rest = without(r, s);
    Reaction {
        clients: rest,
        sent: seq![(s, Some(prohibited_line()))] + announce(rest, s, s, removed_line(s, rest.len())),
        ends: true,
    }
}

/// TO: the message goes to the named client alone; a payload without a
/// space is dropped.
pub open spec fn react_to<H>(r: Seq<Entry<H>>, s: Seq<char>, p: Seq<char>) -> Reaction<H> {
    match split_first_space(p) {
        None => stay(r, Seq::empty()),
        Some((t, m)) => if registered(r, t) {
            stay(r, seq![(t, Some(direct_line(s, m)))])
        } else {
            stay(r, seq![(s, Some(no_such_user_line(t)))])
        },
    }
}

/// EXCEPT: the message goes to every client but the sender and the named one.
pub open spec fn react_except<H>(r: Seq<Entry<H>>, s: Seq<char>, p: Seq<char>) -> Reaction<H> {
    match split_first_space(p) {
        None => stay(r, seq![(s, Some(invalid_command_line()))]),
        Some((x, m)) => if x == s {
            stay(r, seq![(s, Some(invalid_command_line()))])
        } else if registered(r, x) {
            stay(r, announce(r, s, x, chat_line(s, m)))
        } else {
            stay(r, seq![(s, Some(no_such_user_line(x)))])
        },
    }
}

/// BAN: the named client, if it is another one, is told, removed, and its
/// departure announced to all that remain.
pub open spec fn react_ban<H>(r: Seq<Entry<H>>, s: Seq<char>, p: Seq<char>) -> Reaction<H> {
    let t = trimmed(p);
    if t == s {
        stay(r, seq![(s, Some(self_ban_line()))])
    } else if registered(r, t) {
        let rest = without(r, t);
        Reaction {
            clients: rest,
            sent: seq![(t, Some(banned_line(s)))] + announce(rest, t, t, left_line(t, rest.len())),
            ends: false,
        }
    } else {
        stay(r, seq![(s, Some(no_such_user_line(t)))])
    }
}

/// What the command with opcode `op` and payload `p` from the registered
/// client `s` does; `banned` tells whether the payload holds the forbidden
/// phrase. The moderation check comes first and applies to the payload of
/// every command, not to CHAT alone.
pub open spec fn reaction<H>(r: Seq<Entry<H>>, s: Seq<char>, op: u8, p: Seq<char>, banned: bool) -> Reaction<H> {
    if banned {
        expulsion(r, s)
    } else if op == CMD_LIST {
        stay(r, seq![(s, Some(list_line(r)))])
    } else if op == CMD_TO {
        react_to(r, s, p)
    } else if op == CMD_EXCEPT {
        react_except(r, s, p)
    } else if op == CMD_BAN {
        react_ban(r, s, p)
    } else if op == CMD_PING {
        stay(r, seq![(s, None)])
    } else if op == CMD_EXIT {
        departure(r, s)
    } else if op == CMD_CHAT {
        stay(r, announce(r, s, s, chat_line(s, p)))
    } else {
        stay(r, seq![(s, Some(invalid_command_line()))])
    }
}

/// Nothing happens, and the session is over.
pub open spec fn finished<H>(r: Seq<Entry<H>>) -> Reaction<H> {
    Reaction { clients: r, sent: Seq::empty(), ends: true }
}

/// A command from the session of `s` that joined with number `id`:
/// processed only while the session is active and the entry named `s` is
/// still its own. A ban ends the banned one's session, and a later client
/// that takes the nickname gets an entry of its own that the old session
/// never touches.
pub open spec fn step<H>(active: bool, r: Seq<Entry<H>>, s: Seq<char>, id: u64, op: u8, p: Seq<char>, banned: bool) -> Reaction<H> {
    if active && owns(r, s, id) {
        reaction(r, s, op, p, banned)
    } else {
        finished(r)
    }
}

/// The end of the stream, or a read error, on the session of `s` that joined
/// with number `id`: it leaves as by EXIT unless its entry is gone, whether
/// or not another client has since taken the nickname.
pub open spec fn closing<H>(active: bool, r: Seq<Entry<H>>, s: Seq<char>, id: u64) -> Reaction<H> {
    if active && owns(r, s, id) {
        departure(r, s)
    } else {
        finished(r)
    }
}

/// One client's session: `Active` until an exit, a ban, a moderation strike
/// or the end of its stream, then `Terminated` for good.
pub struct Session {
    nickname: String,
    id: u64,
    active: bool,
}

impl Session {
    /// The client's nickname.
    pub closed spec fn nick(&self) -> Seq<char> {
        self.nickname@
    }

    /// The join number of the session's entry.
    pub closed spec fn ident(&self) -> u64 {
        self.id
    }

    /// Whether the session still processes commands.
    pub closed spec fn live(&self) -> bool {
        self.active
    }

    /// The client's nickname.
    pub fn nickname(&self) -> (r: &str)
        ensures
            r@ == self.nick(),
    {
        self.nickname.as_str()
    }

    /// Whether the session still processes commands.
    pub fn is_active(&self) -> (r: bool)
        ensures
            r == self.live(),
    {
        self.active
    }

    /// Runs the handshake of a new connection: the first line that it sent
    /// is its nickname. On success the client is registered and the session
    /// starts; it is welcomed with the occupancy, and every other client is
    /// told that it joined.
    pub fn handshake<H>(reg: &mut Registry<H>, line: &str, ip: String, port: u16, handle: H, server_port: u16) -> (r: Result<(Session, Vec<Delivery>), Rejection>)
        requires
            old(reg).wf(),
        ensures
            final(reg).wf(),
            final(reg).cap() == old(reg).cap(),
            r matches Err(e) ==> final(reg).view() == old(reg).view() && final(reg).next() == old(reg).next()
                && (e == Rejection::Full <==> old(reg).view().len() >= old(reg).cap()),
            r is Err <==> old(reg).view().len() >= old(reg).cap() || old(reg).next() == u64::MAX
                || !crate::registry::valid_nickname(trimmed_end(line@)) || registered(
                old(reg).view(),
                trimmed_end(line@),
            ),
            r matches Err(e) ==> (e == Rejection::Exhausted <==> old(reg).view().len() < old(reg).cap()
                && old(reg).next() == u64::MAX),
            r matches Err(e) ==> (e == Rejection::InvalidNickname <==> old(reg).view().len() < old(reg).cap()
                && old(reg).next() < u64::MAX && !crate::registry::valid_nickname(trimmed_end(line@))),
            r matches Ok(ok) ==> {
                let n = trimmed_end(line@);
                let count = final(reg).view().len();
                &&& ok.0.nick() == n
                &&& ok.0.live()
                &&& ok.0.ident() == old(reg).next()
                &&& final(reg).next() == old(reg).next() + 1
                &&& owns(final(reg).view(), n, ok.0.ident())
                &&& final(reg).view() == old(reg).view().push(
                    (Entry {
                        nickname: final(reg).view().last().nickname,
                        ip,
                        port,
                        id: ok.0.ident(),
                        handle,
                    }),
                )
                &&& final(reg).view().last().nickname@ == n
                &&& sent_view(ok.1@) == seq![(n, Some(welcome_line(n, server_port, count)))] + announce(
                    old(reg).view(),
                    n,
                    n,
                    joined_line(n, ip@, port, count),
                )
            },
    {
        let ip_text = ip.clone();
        match reg.register(line, ip, port, handle) {
            Err(e) => Err(e),
            Ok(count) => {
                let ghost old_view = old(reg).view();
                let nickname = trim_end(line);
                let mut out: Vec<Delivery> = Vec::new();
                out.push(text_to(nickname.as_str(), welcome_text(nickname.as_str(), server_port, count)));
                let joined = joined_text(nickname.as_str(), ip_text.as_str(), port, count);
                let ghost first = out@;
                assert(sent_view(first) =~= seq![(nickname@, Some(welcome_line(nickname@, server_port, count as nat)))]);
                let entries = reg.entries();
                let k = entries.len() - 1;
                let id = entries[k].id;
                let others = &entries[0..k];
                assert(others@ =~= old_view);
                announce_to(&mut out, others, nickname.as_str(), nickname.as_str(), joined.as_str());
                proof {
                    let v = reg.view();
                    assert(v[k as int].nickname@ == nickname@);
                    assert(registered(v, nickname@));
                    let p = crate::registry::position(v, nickname@);
                    assert(v[p].nickname@ == nickname@);
                    assert(p == k);
                    assert(k == old_view.len());
                    assert(v[k as int] == v.last());
                    assert(id == old(reg).next());
                    assert(owns(v, nickname@, id));
                }
                Ok((Session { nickname, id, active: true }, out))
            },
        }
    }

    /// Processes one decoded command; `banned` tells whether its payload
    /// holds the forbidden phrase.
    pub fn respond<H>(&mut self, reg: &mut Registry<H>, op: u8, payload: &str, banned: bool) -> (r: Vec<Delivery>)
        requires
            old(reg).wf(),
        ensures
            final(reg).wf(),
            final(reg).cap() == old(reg).cap(),
            final(reg).next() == old(reg).next(),
            final(self).nick() == old(self).nick(),
            final(self).ident() == old(self).ident(),
            ({
                let x = step(old(self).live(), old(reg).view(), old(self).nick(), old(self).ident(), op, payload@, banned);
                &&& final(reg).view() == x.clients
                &&& sent_view(r@) == x.sent
                &&& final(self).live() == !x.ends
            }),
    {
        let mut out: Vec<Delivery> = Vec::new();
        if !self.active || !reg.holds(self.nickname.as_str(), self.id) {
            self.active = false;
            return out;
        }
        let me = self.nickname.as_str();
        if banned {
            out.push(text_to(me, prohibited_text()));
            reg.remove(me);
            let notice = removed_text(me, reg.len());
            announce_to(&mut out, reg.entries(), me, me, notice.as_str());
            assert(sent_view(out@) =~= seq![(me@, Some(prohibited_line()))] + announce(
                reg.view(), me@, me@, removed_line(me@, reg.view().len())));
            self.active = false;
        } else if op == CMD_LIST {
            out.push(text_to(me, list_text(reg.entries())));
            assert(sent_view(out@) =~= seq![(me@, Some(list_line(reg.view())))]);
        } else if op == CMD_TO {
            match split_at_space(payload) {
                None => {
                    assert(sent_view(out@) =~= Seq::<Sent>::empty());
                },
                Some((target, message)) => {
                    if reg.contains(target.as_str()) {
                        out.push(text_to(target.as_str(), direct_text(me, message.as_str())));
                    } else {
                        out.push(text_to(me, no_such_user_text(target.as_str())));
                    }
                    assert(sent_view(out@) =~= seq![out@[0]@]);
                },
            }
        } else if op == CMD_EXCEPT {
            match split_at_space(payload) {
                None => {
                    out.push(text_to(me, invalid_command_text()));
                    assert(sent_view(out@) =~= seq![out@[0]@]);
                },
                Some((skip, message)) => {
                    if same_text(skip.as_str(), me) {
                        out.push(text_to(me, invalid_command_text()));
                        assert(sent_view(out@) =~= seq![out@[0]@]);
                    } else if reg.contains(skip.as_str()) {
                        let line = chat_text(me, message.as_str());
                        announce_to(&mut out, reg.entries(), me, skip.as_str(), line.as_str());
                        assert(sent_view(out@) =~= announce(reg.view(), me@, skip@, line@));
                    } else {
                        out.push(text_to(me, no_such_user_text(skip.as_str())));
                        assert(sent_view(out@) =~= seq![out@[0]@]);
                    }
                },
            }
        } else if op == CMD_BAN {
            let target = trim(payload);
            if same_text(target.as_str(), me) {
                out.push(text_to(me, self_ban_text()));
                assert(sent_view(out@) =~= seq![out@[0]@]);
            } else if reg.contains(target.as_str()) {
                out.push(text_to(target.as_str(), banned_text(me)));
                reg.remove(target.as_str());
                let notice = left_text(target.as_str(), reg.len());
                announce_to(&mut out, reg.entries(), target.as_str(), target.as_str(), notice.as_str());
                assert(sent_view(out@) =~= seq![(target@, Some(banned_line(me@)))] + announce(
                    reg.view(), target@, target@, left_line(target@, reg.view().len())));
            } else {
                out.push(text_to(me, no_such_user_text(target.as_str())));
                assert(sent_view(out@) =~= seq![out@[0]@]);
            }
        } else if op == CMD_PING {
            out.push(Delivery { to: String::from_str(me), body: Body::Rtt });
            assert(sent_view(out@) =~= seq![out@[0]@]);
        } else if op == CMD_EXIT {
            reg.remove(me);
            let notice = left_text(me, reg.len());
            announce_to(&mut out, reg.entries(), me, me, notice.as_str());
            assert(sent_view(out@) =~= announce(reg.view(), me@, me@, left_line(me@, reg.view().len())));
            self.active = false;
        } else if op == CMD_CHAT {
            let line = chat_text(me, payload);
            announce_to(&mut out, reg.entries(), me, me, line.as_str());
            assert(sent_view(out@) =~= announce(reg.view(), me@, me@, line@));
        } else {
            out.push(text_to(me, invalid_command_text()));
            assert(sent_view(out@) =~= seq![out@[0]@]);
        }
        out
    }

    /// Processes one raw frame, as read up to and including its newline. A
    /// frame of zero or one byte is ignored; any other is decoded and checked
    /// for the forbidden phrase, then processed as `respond` does.
    pub fn receive<H>(&mut self, reg: &mut Registry<H>, raw: &[u8]) -> (r: Vec<Delivery>)
        requires
            old(reg).wf(),
        ensures
            final(reg).wf(),
            final(reg).cap() == old(reg).cap(),
            final(reg).next() == old(reg).next(),
            final(self).nick() == old(self).nick(),
            final(self).ident() == old(self).ident(),
            raw@.len() > 1 && valid_utf8(payload_bytes(raw@)) ==> utf8_lossy(payload_bytes(raw@)) == decode_utf8(
                payload_bytes(raw@),
            ),
            raw@.len() <= 1 ==> final(reg).view() == old(reg).view() && r@.len() == 0 && final(self).live()
                == old(self).live(),
            raw@.len() > 1 ==> {
                let p = utf8_lossy(payload_bytes(raw@));
                let x = step(
                    old(self).live(),
                    old(reg).view(),
                    old(self).nick(),
                    old(self).ident(),
                    raw@[0],
                    p,
                    prohibited(p),
                );
                &&& final(reg).view() == x.clients
                &&& sent_view(r@) == x.sent
                &&& final(self).live() == !x.ends
            },
    {
        match decode_frame(raw) {
            None => Vec::new(),
            Some((op, payload)) => {
                let banned = contains_prohibited_content(payload.as_str());
                self.respond(reg, op, payload.as_str(), banned)
            },
        }
    }

    /// Ends the session on the end of its stream or a read error: while its
    /// own entry is still there, it leaves as by EXIT; otherwise nothing
    /// happens, and an entry that a later client made under the same
    /// nickname is kept.
    pub fn close<H>(&mut self, reg: &mut Registry<H>) -> (r: Vec<Delivery>)
        requires
            old(reg).wf(),
        ensures
            final(reg).wf(),
            final(reg).cap() == old(reg).cap(),
            final(reg).next() == old(reg).next(),
            final(self).nick() == old(self).nick(),
            final(self).ident() == old(self).ident(),
            !final(self).live(),
            !owns(old(reg).view(), old(self).nick(), old(self).ident()) ==> final(reg).view() == old(reg).view()
                && r@.len() == 0,
            ({
                let x = closing(old(self).live(), old(reg).view(), old(self).nick(), old(self).ident());
                &&& final(reg).view() == x.clients
                &&& sent_view(r@) == x.sent
            }),
    {
        let mut out: Vec<Delivery> = Vec::new();
        if self.active && reg.holds(self.nickname.as_str(), self.id) {
            let me = self.nickname.as_str();
            reg.remove(me);
            let notice = left_text(me, reg.len());
            announce_to(&mut out, reg.entries(), me, me, notice.as_str());
            assert(sent_view(out@) =~= announce(reg.view(), me@, me@, left_line(me@, reg.view().len())));
        } else {
            assert(sent_view(out@) =~= Seq::<Sent>::empty());
        }
        self.active = false;
        out
    }
}

} // verus!
