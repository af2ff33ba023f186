//! Laws of the session model: what holds of the registry in every state, and
//! what chats, bans, moderation strikes and exits deliver.
use vstd::prelude::*;
use crate::codec::CMD_BAN;
use crate::codec::CMD_CHAT;
use crate::codec::CMD_EXIT;
use crate::notice::announce;
use crate::notice::chat_line;
use crate::notice::no_such_user_line;
use crate::notice::prohibited_line;
use crate::notice::removed_line;
use crate::notice::Sent;
use crate::registry::distinct_nicknames;
use crate::registry::owns;
use crate::registry::position;
use crate::registry::registered;
use crate::registry::well_formed;
use crate::registry::lemma_without;
use crate::registry::without;
use crate::registry::Entry;
use crate::session::closing;
use crate::session::finished;
use crate::session::reaction;
use crate::session::step;
use crate::text::trimmed;

verus! {

/// The bodies of the deliveries in `out` that are addressed to `c`, in order.
pub open spec fn lines_to(out: Seq<Sent>, c: Seq<char>) -> Seq<Option<Seq<char>>>
    decreases out.len(),
{
    if out.len() == 0 {
        Seq::empty()
    } else {
        let rest = lines_to(out.drop_last(), c);
        if out.last().0 == c {
            rest.push(out.last().1)
        } else {
            rest
        }
    }
}

/// What each client hears of a series of CHAT commands on registry `r`: the
/// deliveries of the `k`-th chat, sent by `senders[k]` with text `texts[k]`,
/// follow those of the chats before it.
pub open spec fn chat_series<H>(r: Seq<Entry<H>>, senders: Seq<Seq<char>>, texts: Seq<Seq<char>>) -> Seq<Sent>
    decreases senders.len(),
{
    if senders.len() == 0 || texts.len() != senders.len() {
        Seq::empty()
    } else {
        chat_series(r, senders.drop_last(), texts.drop_last()) + reaction(
            r,
            senders.last(),
            CMD_CHAT,
            texts.last(),
            false,
        ).sent
    }
}

/// The relay lines that client `c` should hear of the chats: one per chat
/// that another client sent, attributed to its sender, in order.
pub open spec fn relays_for(senders: Seq<Seq<char>>, texts: Seq<Seq<char>>, c: Seq<char>) -> Seq<Option<Seq<char>>>
    decreases senders.len(),
{
    if senders.len() == 0 || texts.len() != senders.len() {
        Seq::empty()
    } else {
        let rest = relays_for(senders.drop_last(), texts.drop_last(), c);
        if senders.last() != c {
            rest.push(Some(chat_line(senders.last(), texts.last())))
        } else {
            rest
        }
    }
}

proof fn lemma_lines_to_concat(a: Seq<Sent>, b: Seq<Sent>, c: Seq<char>)
    ensures
        lines_to(a + b, c) == lines_to(a, c) + lines_to(b, c),
    decreases b.len(),
{
    if b.len() == 0 {
        assert(a + b =~= a);
        assert(lines_to(a, c) + lines_to(b, c) =~= lines_to(a, c));
    } else {
        assert((a + b).drop_last() =~= a + b.drop_last());
        assert((a + b).last() == b.last());
        lemma_lines_to_concat(a, b.drop_last(), c);
        if b.last().0 == c {
            assert(lines_to(a, c) + lines_to(b, c) =~= (lines_to(a, c) + lines_to(b.drop_last(), c)).push(
                b.last().1,
            ));
        }
    }
}

proof fn lemma_distinct_drop_last<H>(r: Seq<Entry<H>>)
    requires
        distinct_nicknames(r),
        r.len() > 0,
    ensures
        distinct_nicknames(r.drop_last()),
        !registered(r.drop_last(), r.last().nickname@),
{
    let d = r.drop_last();
    assert forall|i: int, j: int|
        0 <= i < d.len() && 0 <= j < d.len() && i != j implies #[trigger] d[i].nickname@
            != #[trigger] d[j].nickname@ by {
        assert(d[i] == r[i] && d[j] == r[j]);
    }
    if registered(d, r.last().nickname@) {
        let i = choose|i: int| 0 <= i < d.len() && #[trigger] d[i].nickname@ == r.last().nickname@;
        assert(d[i] == r[i]);
        assert(r[i].nickname@ == r[r.len() - 1].nickname@);
    }
}

/// In a registry of distinct nicknames, a broadcast that skips `s` reaches
/// each other registered client exactly once, and no one else.
proof fn lemma_announce_lines<H>(r: Seq<Entry<H>>, s: Seq<char>, t: Seq<char>, c: Seq<char>)
    requires
        distinct_nicknames(r),
    ensures
        lines_to(announce(r, s, s, t), c) == if c != s && registered(r, c) {
            seq![Some(t)]
        } else {
            Seq::<Option<Seq<char>>>::empty()
        },
    decreases r.len(),
{
    if r.len() == 0 {
        assert(!registered(r, c));
    } else {
        let d = r.drop_last();
        lemma_distinct_drop_last(r);
        lemma_announce_lines(d, s, t, c);
        let to = r.last().nickname@;
        assert(registered(r, c) <==> registered(d, c) || to == c) by {
            if registered(r, c) {
                let i = choose|i: int| 0 <= i < r.len() && #[trigger] r[i].nickname@ == c;
                if i < r.len() - 1 {
                    assert(d[i] == r[i]);
                }
            }
            if registered(d, c) {
                let i = choose|i: int| 0 <= i < d.len() && #[trigger] d[i].nickname@ == c;
                assert(d[i] == r[i]);
            }
            if to == c {
                assert(r[r.len() - 1].nickname@ == c);
            }
        }
        let rest = announce(d, s, s, t);
        if to != s {
            assert(announce(r, s, s, t) == rest.push((to, Some(t))));
            assert(rest.push((to, Some(t))).drop_last() =~= rest);
        }
    }
}

/// The registry's invariant holds in every state that a session reaches:
/// nicknames stay distinct and well formed, and the size within the capacity,
/// whatever command any session processes.
pub proof fn lemma_step_keeps_registry_well_formed<H>(
    active: bool,
    r: Seq<Entry<H>>,
    cap: nat,
    s: Seq<char>,
    id: u64,
    op: u8,
    p: Seq<char>,
    banned: bool,
)
    requires
        well_formed(r, cap),
    ensures
        well_formed(step(active, r, s, id, op, p, banned).clients, cap),
        well_formed(closing(active, r, s, id).clients, cap),
{
    lemma_without(r, cap, s);
    lemma_without(r, cap, trimmed(p));
}

/// A series of CHAT commands from registered senders, none with the
/// forbidden phrase, leaves the registry as it is, and each registered client
/// hears exactly one relay line for each chat that another client sent,
/// attributed to that sender; so a client that sent none of `n` chats hears
/// exactly `n` lines.
pub proof fn lemma_chats_reach_every_other_client<H>(
    r: Seq<Entry<H>>,
    cap: nat,
    senders: Seq<Seq<char>>,
    texts: Seq<Seq<char>>,
    c: Seq<char>,
)
    requires
        well_formed(r, cap),
        senders.len() == texts.len(),
        forall|k: int| 0 <= k < senders.len() ==> registered(r, #[trigger] senders[k]),
        registered(r, c),
    ensures
        forall|k: int|
            0 <= k < senders.len() ==> #[trigger] reaction(r, senders[k], CMD_CHAT, texts[k], false).clients
                == r,
        lines_to(chat_series(r, senders, texts), c) == relays_for(senders, texts, c),
        !senders.contains(c) ==> relays_for(senders, texts, c).len() == senders.len(),
    decreases senders.len(),
{
    if senders.len() > 0 {
        let ss = senders.drop_last();
        let ts = texts.drop_last();
        assert forall|k: int| 0 <= k < ss.len() implies registered(r, #[trigger] ss[k]) by {
            assert(ss[k] == senders[k]);
        }
        lemma_chats_reach_every_other_client(r, cap, ss, ts, c);
        let s = senders.last();
        let m = texts.last();
        lemma_announce_lines(r, s, chat_line(s, m), c);
        lemma_lines_to_concat(chat_series(r, ss, ts), announce(r, s, s, chat_line(s, m)), c);
        if s != c {
            assert(lines_to(chat_series(r, senders, texts), c) =~= relays_for(ss, ts, c).push(
                Some(chat_line(s, m)),
            ));
        } else {
            assert(lines_to(chat_series(r, senders, texts), c) =~= relays_for(ss, ts, c));
        }
        if !senders.contains(c) {
            assert forall|k: int| 0 <= k < ss.len() implies ss[k] != c by {
                assert(ss[k] == senders[k]);
            }
            assert(!ss.contains(c));
            assert(senders[senders.len() - 1] == s);
        }
    }
}

/// BAN of a nickname that no connected client has leaves the registry as it
/// is and gives exactly one reply, an error to the requester.
pub proof fn lemma_ban_of_missing_client<H>(r: Seq<Entry<H>>, s: Seq<char>, id: u64, p: Seq<char>)
    requires
        owns(r, s, id),
        !registered(r, trimmed(p)),
    ensures
        step(true, r, s, id, CMD_BAN, p, false).clients == r,
        step(true, r, s, id, CMD_BAN, p, false).sent == seq![(s, Some(no_such_user_line(trimmed(p))))],
        !step(true, r, s, id, CMD_BAN, p, false).ends,
{
}

/// A command whose payload holds the forbidden phrase removes its sender and
/// ends its session; the sender hears one notice, each remaining client hears
/// exactly one removal notice with the new count, and nobody hears anything
/// else, so the payload is relayed to no one.
pub proof fn lemma_prohibited_payload<H>(
    r: Seq<Entry<H>>,
    cap: nat,
    s: Seq<char>,
    id: u64,
    op: u8,
    p: Seq<char>,
    c: Seq<char>,
)
    requires
        well_formed(r, cap),
        owns(r, s, id),
    ensures
        ({
            let x = step(true, r, s, id, op, p, true);
            &&& x.ends
            &&& x.clients == without(r, s)
            &&& !registered(x.clients, s)
            &&& x.clients.len() == r.len() - 1
            &&& lines_to(x.sent, s) == seq![Some(prohibited_line())]
            &&& registered(x.clients, c) ==> lines_to(x.sent, c) == seq![
                Some(removed_line(s, x.clients.len())),
            ]
            &&& !registered(r, c) ==> lines_to(x.sent, c).len() == 0
        }),
{
    lemma_without(r, cap, s);
    let rest = without(r, s);
    let t = removed_line(s, rest.len());
    let first: Seq<Sent> = seq![(s, Some(prohibited_line()))];
    lemma_lines_to_concat(first, announce(rest, s, s, t), c);
    lemma_lines_to_concat(first, announce(rest, s, s, t), s);
    lemma_announce_lines(rest, s, t, c);
    lemma_announce_lines(rest, s, t, s);
    assert(first.drop_last() =~= Seq::<Sent>::empty());
    assert(lines_to(first.drop_last(), c) =~= Seq::<Option<Seq<char>>>::empty());
    assert(lines_to(first.drop_last(), s) =~= Seq::<Option<Seq<char>>>::empty());
    assert(lines_to(first, s) =~= seq![Some(prohibited_line())]);
    if c != s {
        assert(lines_to(first, c) =~= Seq::<Option<Seq<char>>>::empty());
        assert(lines_to(step(true, r, s, id, op, p, true).sent, c) =~= lines_to(announce(rest, s, s, t), c));
    }
    assert(lines_to(step(true, r, s, id, op, p, true).sent, s) =~= lines_to(first, s));
}

/// EXIT ends the session and removes its client; from then on the session
/// does nothing: a further EXIT, any other command, or the end of its stream
/// leaves the registry as it is and delivers nothing.
pub proof fn lemma_exit_is_final<H>(
    r: Seq<Entry<H>>,
    cap: nat,
    s: Seq<char>,
    id: u64,
    p: Seq<char>,
    op: u8,
    q: Seq<char>,
    banned: bool,
)
    requires
        well_formed(r, cap),
        owns(r, s, id),
    ensures
        ({
            let x = step(true, r, s, id, CMD_EXIT, p, false);
            &&& x.ends
            &&& !registered(x.clients, s)
            &&& step(!x.ends, x.clients, s, id, op, q, banned) == finished(x.clients)
            &&& step(!x.ends, x.clients, s, id, CMD_EXIT, q, banned) == finished(x.clients)
            &&& closing(!x.ends, x.clients, s, id) == finished(x.clients)
        }),
        forall|r2: Seq<Entry<H>>| #[trigger] step(false, r2, s, id, CMD_EXIT, q, banned) == finished(r2),
{
    lemma_without(r, cap, s);
}

/// A session whose entry is gone does nothing, even after a new client has
/// joined under the same nickname: the newcomer's entry, with a join number of
/// its own, is neither acted for nor removed by the old session.
pub proof fn lemma_newcomer_is_not_taken_over<H>(
    r: Seq<Entry<H>>,
    e: Entry<H>,
    active: bool,
    id: u64,
    op: u8,
    p: Seq<char>,
    banned: bool,
)
    requires
        !registered(r, e.nickname@),
        e.id != id,
    ensures
        step(active, r.push(e), e.nickname@, id, op, p, banned) == finished(r.push(e)),
        closing(active, r.push(e), e.nickname@, id) == finished(r.push(e)),
{
    let t = r.push(e);
    let s = e.nickname@;
    assert(t[r.len() as int] == e);
    assert(registered(t, s));
    let q = position(t, s);
    if q < r.len() {
        assert(t[q] == r[q]);
        assert(registered(r, s));
    }
}

} // verus!
