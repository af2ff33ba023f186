//! The client registry: the connected clients by nickname, each with its
//! address and the handle through which the server writes to it.
use vstd::prelude::*;
use crate::text::same_text;
use crate::text::trim_end;
use crate::text::trimmed_end;

verus! {

/// The longest nickname, in characters.
pub const MAX_NICKNAME_LEN: usize = 10;

/// Whether `c` is an ASCII letter or digit.
pub open spec fn ascii_alphanumeric(c: char) -> bool {
    ('0' <= c && c <= '9') || ('a' <= c && c <= 'z') || ('A' <= c && c <= 'Z')
}

/// A nickname is one to ten ASCII letters and digits.
pub open spec fn valid_nickname(s: Seq<char>) -> bool {
    1 <= s.len() <= MAX_NICKNAME_LEN && forall|i: int| 0 <= i < s.len() ==> ascii_alphanumeric(#[trigger] s[i])
}

/// Tests the nickname format.
pub fn is_valid_nickname(s: &str) -> (r: bool)
    ensures
        r == valid_nickname(s@),
{
    let n: usize = s.unicode_len();
    if n < 1 || n > MAX_NICKNAME_LEN {
        return false;
    }
    let mut i: usize = 0;
    while i < n
        invariant
            i <= n,
            n == s@.len(),
            forall|k: int| 0 <= k < i ==> ascii_alphanumeric(#[trigger] s@[k]),
        decreases n - i,
    {
        let c = s.get_char(i);
        if !(('0' <= c && c <= '9') || ('a' <= c && c <= 'z') || ('A' <= c && c <= 'Z')) {
            return false;
        }
        i = i + 1;
    }
    true
}

/// One connected client.
pub struct Entry<H> {
    pub nickname: String,
    pub ip: String,
    pub port: u16,
    /// The join number that the registry handed out for this connection;
    /// no other connection ever gets it.
    pub id: u64,
    /// The server's way to write to this client.
    pub handle: H,
}

/// Whether a client named `nick` is in `s`.
pub open spec fn registered<H>(s: Seq<Entry<H>>, nick: Seq<char>) -> bool {
    exists|i: int| 0 <= i < s.len() && #[trigger] s[i].nickname@ == nick
}

/// No two entries of `s` share a nickname.
pub open spec fn distinct_nicknames<H>(s: Seq<Entry<H>>) -> bool {
    forall|i: int, j: int|
        0 <= i < s.len() && 0 <= j < s.len() && i != j ==> #[trigger] s[i].nickname@
            != #[trigger] s[j].nickname@
}

/// The registry's invariant: nicknames distinct and well formed, and no more
/// entries than the capacity.
pub open spec fn well_formed<H>(s: Seq<Entry<H>>, capacity: nat) -> bool {
    &&& distinct_nicknames(s)
    &&& forall|i: int| 0 <= i < s.len() ==> valid_nickname(#[trigger] s[i].nickname@)
    &&& s.len() <= capacity
}

/// The position of the entry named `nick` in `s`, where there is one.
pub open spec fn position<H>(s: Seq<Entry<H>>, nick: Seq<char>) -> int {
    choose|i: int| 0 <= i < s.len() && #[trigger] s[i].nickname@ == nick
}

/// `s` without the entry named `nick`; `s` itself where there is none.
pub open spec fn without<H>(s: Seq<Entry<H>>, nick: Seq<char>) -> Seq<Entry<H>> {
    if registered(s, nick) {
        s.remove(position(s, nick))
    } else {
        s
    }
}

/// Whether the entry named `nick` in `s` is the one with join number `id`:
/// the session that joined under that number still owns the nickname.
pub open spec fn owns<H>(s: Seq<Entry<H>>, nick: Seq<char>, id: u64) -> bool {
    registered(s, nick) && s[position(s, nick)].id == id
}

/// Every join number in `s` is below `next`.
pub open spec fn ids_below<H>(s: Seq<Entry<H>>, next: nat) -> bool {
    forall|i: int| 0 <= i < s.len() ==> (#[trigger] s[i]).id < next
}

/// Removing `nick` from a registry keeps it well formed, takes out exactly
/// `nick`, keeps every other entry, and shortens it by one where `nick` was
/// there.
pub proof fn lemma_without<H>(r: Seq<Entry<H>>, cap: nat, nick: Seq<char>)
    requires
        well_formed(r, cap),
    ensures
        well_formed(without(r, nick), cap),
        forall|c: Seq<char>| registered(without(r, nick), c) <==> registered(r, c) && c != nick,
        forall|a: int| 0 <= a < without(r, nick).len() ==> r.contains(#[trigger] without(r, nick)[a]),
        without(r, nick).len() == if registered(r, nick) { r.len() - 1 } else { r.len() as int },
{
    if registered(r, nick) {
        let p = position(r, nick);
        let t = r.remove(p);
        assert forall|a: int, b: int|
            0 <= a < t.len() && 0 <= b < t.len() && a != b implies #[trigger] t[a].nickname@
                != #[trigger] t[b].nickname@ by {
            let a2 = if a < p { a } else { a + 1 };
            let b2 = if b < p { b } else { b + 1 };
            assert(t[a] == r[a2] && t[b] == r[b2]);
        }
        assert forall|a: int| 0 <= a < t.len() implies valid_nickname(#[trigger] t[a].nickname@) by {
            let a2 = if a < p { a } else { a + 1 };
            assert(t[a] == r[a2]);
        }
        assert forall|a: int| 0 <= a < t.len() implies r.contains(#[trigger] t[a]) by {
            let a2 = if a < p { a } else { a + 1 };
            assert(t[a] == r[a2]);
        }
        assert forall|c: Seq<char>| registered(t, c) <==> registered(r, c) && c != nick by {
            if registered(t, c) {
                let a = choose|a: int| 0 <= a < t.len() && #[trigger] t[a].nickname@ == c;
                let a2 = if a < p { a } else { a + 1 };
                assert(t[a] == r[a2]);
                assert(r[a2].nickname@ == c);
                assert(a2 != p);
                assert(r[p].nickname@ == nick);
            }
            if registered(r, c) && c != nick {
                let a = choose|a: int| 0 <= a < r.len() && #[trigger] r[a].nickname@ == c;
                assert(a != p);
                let a1 = if a < p { a } else { a - 1 };
                assert(t[a1] == r[a]);
                assert(t[a1].nickname@ == c);
            }
        }
    }
}

/// Why a handshake was refused.
#[derive(PartialEq, Eq, Structural, Debug, Clone, Copy)]
pub enum Rejection {
    /// The room holds as many clients as its capacity.
    Full,
    /// The nickname is empty, too long, or holds other than ASCII letters and digits.
    InvalidNickname,
    /// Another connected client has the nickname.
    NicknameInUse,
    /// Every join number has been handed out; no connection can join again.
    Exhausted,
}

/// The registry of connected clients, in the order in which they joined.
pub struct Registry<H> {
    entries: Vec<Entry<H>>,
    capacity: usize,
    next_id: u64,
}

impl<H> Registry<H> {
    /// The entries, in the order in which the clients joined.
    pub closed spec fn view(&self) -> Seq<Entry<H>> {
        self.entries@
    }

    /// The most clients the registry holds.
    pub closed spec fn cap(&self) -> nat {
        self.capacity as nat
    }

    /// The join number that the next client to join gets.
    pub closed spec fn next(&self) -> u64 {
        self.next_id
    }

    /// The registry's invariant.
    pub open spec fn wf(&self) -> bool {
        well_formed(self.view(), self.cap()) && ids_below(self.view(), self.next() as nat)
    }

    /// An empty registry for at most `capacity` clients.
    pub fn new(capacity: usize) -> (r: Self)
        ensures
            r.view() == Seq::<Entry<H>>::empty(),
            r.cap() == capacity,
            r.next() == 0,
            r.wf(),
    {
        Registry { entries: Vec::new(), capacity, next_id: 0 }
    }

    /// The number of connected clients.
    pub fn len(&self) -> (r: usize)
        ensures
            r == self.view().len(),
    {
        self.entries.len()
    }

    /// The most clients the registry holds.
    pub fn capacity(&self) -> (r: usize)
        ensures
            r == self.cap(),
    {
        self.capacity
    }

    /// Whether no further client can join.
    pub fn is_full(&self) -> (r: bool)
        ensures
            r == (self.view().len() >= self.cap()),
    {
        self.entries.len() >= self.capacity
    }

    /// The entries, in the order in which the clients joined.
    pub fn entries(&self) -> (r: &[Entry<H>])
        ensures
            r@ == self.view(),
    {
        self.entries.as_slice()
    }

    /// The position of the client named `nick`.
    pub fn find(&self, nick: &str) -> (r: Option<usize>)
        requires
            self.wf(),
        ensures
            r is None <==> !registered(self.view(), nick@),
            r matches Some(i) ==> i == position(self.view(), nick@) && i < self.view().len()
                && self.view()[i as int].nickname@ == nick@,
    {
        let n = self.entries.len();
        let mut i: usize = 0;
        while i < n
            invariant
                i <= n,
                n == self.entries@.len(),
                self.wf(),
                forall|k: int| 0 <= k < i ==> #[trigger] self.entries@[k].nickname@ != nick@,
            decreases n - i,
        {
            if same_text(self.entries[i].nickname.as_str(), nick) {
                let ghost p = position(self.view(), nick@);
                assert(registered(self.view(), nick@));
                assert(self.view()[p].nickname@ == nick@);
                assert(self.view()[i as int].nickname@ == nick@);
                assert(p == i);
                return Some(i);
            }
            i = i + 1;
        }
        None
    }

    /// Whether a client named `nick` is connected.
    pub fn contains(&self, nick: &str) -> (r: bool)
        requires
            self.wf(),
        ensures
            r == registered(self.view(), nick@),
    {
        self.find(nick).is_some()
    }

    /// Whether the client named `nick` is the one that joined with number `id`.
    pub fn holds(&self, nick: &str, id: u64) -> (r: bool)
        requires
            self.wf(),
        ensures
            r == owns(self.view(), nick@, id),
    {
        match self.find(nick) {
            Some(i) => self.entries[i].id == id,
            None => false,
        }
    }

    /// The handle of the client named `nick`.
    pub fn handle(&self, nick: &str) -> (r: Option<&H>)
        requires
            self.wf(),
        ensures
            r is None <==> !registered(self.view(), nick@),
            r matches Some(h) ==> *h == self.view()[position(self.view(), nick@)].handle,
    {
        match self.find(nick) {
            Some(i) => Some(&self.entries[i].handle),
            None => None,
        }
    }

    /// Removes the client named `nick`, handing back its entry.
    pub fn remove(&mut self, nick: &str) -> (r: Option<Entry<H>>)
        requires
            old(self).wf(),
        ensures
            final(self).wf(),
            final(self).cap() == old(self).cap(),
            final(self).next() == old(self).next(),
            final(self).view() == without(old(self).view(), nick@),
            r is None <==> !registered(old(self).view(), nick@),
            r matches Some(e) ==> e == old(self).view()[position(old(self).view(), nick@)],
    {
        match self.find(nick) {
            Some(i) => {
                let e = self.entries.remove(i);
                proof {
                    let s = old(self).view();
                    lemma_without(s, self.cap(), nick@);
                    assert forall|a: int| 0 <= a < self.view().len() implies (#[trigger] self.view()[a]).id
                        < self.next() by {
                        assert(s.contains(self.view()[a]));
                    }
                }
                Some(e)
            },
            None => None,
        }
    }

    /// The handshake's admission step: the line that the client sent, without
    /// its trailing white space, becomes its nickname when the room has space,
    /// the nickname is well formed and no connected client has it. On success
    /// the client is added last, under the next join number, and the new
    /// number of clients is returned.
    pub fn register(&mut self, line: &str, ip: String, port: u16, handle: H) -> (r: Result<usize, Rejection>)
        requires
            old(self).wf(),
        ensures
            final(self).wf(),
            final(self).cap() == old(self).cap(),
            r == Err::<usize, Rejection>(Rejection::Full) <==> old(self).view().len() >= old(self).cap(),
            r == Err::<usize, Rejection>(Rejection::Exhausted) <==> old(self).view().len() < old(self).cap()
                && old(self).next() == u64::MAX,
            r == Err::<usize, Rejection>(Rejection::InvalidNickname) <==> old(self).view().len() < old(self).cap()
                && old(self).next() < u64::MAX && !valid_nickname(trimmed_end(line@)),
            r == Err::<usize, Rejection>(Rejection::NicknameInUse) <==> old(self).view().len() < old(self).cap()
                && old(self).next() < u64::MAX && valid_nickname(trimmed_end(line@)) && registered(
                old(self).view(),
                trimmed_end(line@),
            ),
            r is Ok ==> final(self).view() == old(self).view().push(
                (Entry {
                    nickname: final(self).view().last().nickname,
                    ip,
                    port,
                    id: old(self).next(),
                    handle,
                }),
            ) && final(self).view().last().nickname@ == trimmed_end(line@) && r == Ok::<usize, Rejection>(
                final(self).view().len() as usize) && final(self).next() == old(self).next() + 1,
            r is Err ==> final(self).view() == old(self).view() && final(self).next() == old(self).next(),
    {
        if self.entries.len() >= self.capacity {
            return Err(Rejection::Full);
        }
        if self.next_id == u64::MAX {
            return Err(Rejection::Exhausted);
        }
        let nickname = trim_end(line);
        if !is_valid_nickname(nickname.as_str()) {
            return Err(Rejection::InvalidNickname);
        }
        if self.contains(nickname.as_str()) {
            return Err(Rejection::NicknameInUse);
        }
        let id = self.next_id;
        self.entries.push(Entry { nickname, ip, port, id, handle });
        self.next_id = id + 1;
        proof {
            let s = old(self).view();
            let t = self.view();
            assert forall|a: int, b: int|
                0 <= a < t.len() && 0 <= b < t.len() && a != b implies #[trigger] t[a].nickname@
                    != #[trigger] t[b].nickname@ by {
                if a < s.len() && b < s.len() {
                    assert(t[a] == s[a] && t[b] == s[b]);
                } else if a < s.len() {
                    assert(t[a] == s[a]);
                } else if b < s.len() {
                    assert(t[b] == s[b]);
                }
            }
            assert forall|a: int| 0 <= a < t.len() implies valid_nickname(#[trigger] t[a].nickname@) by {
                if a < s.len() {
                    assert(t[a] == s[a]);
                }
            }
            assert forall|a: int| 0 <= a < t.len() implies (#[trigger] t[a]).id < self.next() by {
                if a < s.len() {
                    assert(t[a] == s[a]);
                }
            }
        }
        Ok(self.entries.len())
    }
}

} // verus!
