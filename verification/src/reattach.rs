//! Reattach cache: while a client is away, session/update lines go into a
//! bounded queue per session (oldest dropped first once the byte cap is
//! passed); on reattach they are replayed in session-name order, then line
//! order, after an announcement line carrying the count.

use vstd::prelude::*;
use std::collections::VecDeque;

use crate::permission::RpcMessage;
use crate::text::{decimal, lemma_seq_lt_asymmetric, lemma_seq_lt_irreflexive, lemma_seq_lt_total,
    lemma_seq_lt_transitive, push_decimal, push_str, seq_lt, str_eq, str_lt};

verus! {

broadcast use vstd::std_specs::vecdeque::group_vec_dequeue_axioms;

/// Byte cap of one session's cached updates (8 MiB).
pub const SESSION_UPDATE_CACHE_LIMIT: usize = 8 * 1024 * 1024;

/// Method of the bridge's replay announcement notification.
pub const REPLAY_ANNOUNCE_METHOD: &'static str = "dsh/bridge/reattach";

struct SessionQueue {
    session: String,
    lines: VecDeque<Vec<u8>>,
    bytes: usize,
}

/// Per-session bounded queues of cached lines, kept in session-name order.
pub struct UpdateCache {
    limit: usize,
    sessions: Vec<SessionQueue>,
}

/// Total bytes of a queue of lines.
pub open spec fn lines_bytes(q: Seq<Vec<u8>>) -> nat
    decreases q.len(),
{
    if q.len() == 0 {
        0
    } else {
        q[0]@.len() + lines_bytes(q.drop_first())
    }
}

/// How many oldest lines must go for the rest to fit within `limit` bytes.
pub open spec fn trim_count(q: Seq<Vec<u8>>, limit: nat) -> nat
    decreases q.len(),
{
    if q.len() == 0 || lines_bytes(q) <= limit {
        0
    } else {
        1 + trim_count(q.drop_first(), limit)
    }
}

/// The newest lines of `q` that fit within `limit` bytes.
pub open spec fn trimmed(q: Seq<Vec<u8>>, limit: nat) -> Seq<Vec<u8>> {
    q.skip(trim_count(q, limit) as int)
}

/// All queued lines, session after session, each in arrival order.
pub open spec fn flatten(e: Seq<(Seq<char>, Seq<Vec<u8>>)>) -> Seq<Vec<u8>>
    decreases e.len(),
{
    if e.len() == 0 {
        Seq::empty()
    } else {
        flatten(e.drop_last()) + e.last().1
    }
}

/// Session names strictly ascending.
pub open spec fn names_sorted(e: Seq<(Seq<char>, Seq<Vec<u8>>)>) -> bool {
    forall|i: int, j: int| 0 <= i < j < e.len() ==> seq_lt(#[trigger] e[i].0, #[trigger] e[j].0)
}

proof fn lemma_bytes_push(q: Seq<Vec<u8>>, x: Vec<u8>)
    ensures
        lines_bytes(q.push(x)) == lines_bytes(q) + x@.len(),
    decreases q.len(),
{
    if q.len() > 0 {
        assert(q.push(x).drop_first() =~= q.drop_first().push(x));
        assert(q.push(x)[0] == q[0]);
        lemma_bytes_push(q.drop_first(), x);
    } else {
        assert(q.push(x).drop_first() =~= Seq::<Vec<u8>>::empty());
        assert(lines_bytes(Seq::<Vec<u8>>::empty()) == 0);
        assert(q.push(x)[0] == x);
    }
}

/// A session's cached lines never exceed the byte cap: what remains after
/// trimming fits, and trimming drops no more lines than there are.
pub proof fn trimmed_fits_cap(q: Seq<Vec<u8>>, limit: nat)
    ensures
        lines_bytes(trimmed(q, limit)) <= limit,
        trim_count(q, limit) <= q.len(),
    decreases q.len(),
{
    if q.len() == 0 {
        assert(trimmed(q, limit) =~= q);
    } else if lines_bytes(q) <= limit {
        assert(trimmed(q, limit) =~= q);
    } else {
        trimmed_fits_cap(q.drop_first(), limit);
        assert(trimmed(q, limit) =~= trimmed(q.drop_first(), limit));
    }
}

/// Dropping is minimal: `trim_count` is the least number of oldest lines
/// whose removal leaves the queue within `limit` bytes.
pub proof fn trim_count_is_least(q: Seq<Vec<u8>>, limit: nat)
    ensures
        lines_bytes(q.skip(trim_count(q, limit) as int)) <= limit,
        forall|j: int| 0 <= j < trim_count(q, limit) ==> lines_bytes(#[trigger] q.skip(j)) > limit,
    decreases q.len(),
{
    if q.len() == 0 || lines_bytes(q) <= limit {
        assert(q.skip(0) =~= q);
    } else {
        let r = q.drop_first();
        trim_count_is_least(r, limit);
        trimmed_fits_cap(q, limit);
        trimmed_fits_cap(r, limit);
        assert(q.skip(trim_count(q, limit) as int) =~= r.skip(trim_count(r, limit) as int));
        assert forall|j: int| 0 <= j < trim_count(q, limit) implies lines_bytes(#[trigger] q.skip(j)) > limit by {
            if j == 0 {
                assert(q.skip(0) =~= q);
            } else {
                assert(q.skip(j) =~= r.skip(j - 1));
            }
        }
    }
}

proof fn lemma_trim_keeps_last(q: Seq<Vec<u8>>, limit: nat)
    requires
        q.len() > 0,
        q.last()@.len() <= limit,
    ensures
        trim_count(q, limit) < q.len(),
    decreases q.len(),
{
    if q.len() == 1 {
        assert(q.drop_first() =~= Seq::<Vec<u8>>::empty());
        assert(lines_bytes(q.drop_first()) == 0);
        assert(q[0] == q.last());
        assert(lines_bytes(q) == q[0]@.len());
    } else if lines_bytes(q) > limit {
        assert(q.drop_first().last() == q.last());
        lemma_trim_keeps_last(q.drop_first(), limit);
    }
}

/// Dropping goes oldest first: a new line that fits the cap on its own is
/// always kept, as the newest cached line of its session.
pub proof fn newest_line_kept(q: Seq<Vec<u8>>, line: Vec<u8>, limit: nat)
    requires
        line@.len() <= limit,
    ensures
        trimmed(q.push(line), limit).len() > 0,
        trimmed(q.push(line), limit).last() == line,
{
    lemma_trim_keeps_last(q.push(line), limit);
    trimmed_fits_cap(q.push(line), limit);
}

/// The cache after queueing `line` for `session` under cap `limit`, and how
/// many lines were dropped: a known session's queue takes the line and is
/// trimmed to the cap; a new session is inserted (in name order) with the
/// line alone, trimmed, at the first place whose name is not below its own
/// (so names stay in ascending order).
pub open spec fn pushed(
    before: Seq<(Seq<char>, Seq<Vec<u8>>)>,
    session: Seq<char>,
    line: Vec<u8>,
    limit: nat,
    after: Seq<(Seq<char>, Seq<Vec<u8>>)>,
    dropped: nat,
) -> bool {
    if exists|i: int| 0 <= i < before.len() && before[i].0 == session {
        exists|i: int|
            0 <= i < before.len() && before[i].0 == session && dropped == trim_count(before[i].1.push(line), limit)
                && after == before.update(i, (session, trimmed(before[i].1.push(line), limit)))
    } else {
        dropped == trim_count(seq![line], limit) && exists|j: int|
            0 <= j <= before.len() && (forall|k: int| 0 <= k < j ==> seq_lt(#[trigger] before[k].0, session))
                && (forall|k: int| j <= k < before.len() ==> seq_lt(session, #[trigger] before[k].0))
                && after == before.insert(j, (session, trimmed(seq![line], limit)))
    }
}

proof fn lemma_flatten_has(e: Seq<(Seq<char>, Seq<Vec<u8>>)>, i: int, k: int)
    requires
        0 <= i < e.len(),
        0 <= k < e[i].1.len(),
    ensures
        flatten(e).contains(e[i].1[k]),
    decreases e.len(),
{
    let last = e.len() - 1;
    if i == last {
        let f = flatten(e.drop_last());
        assert(flatten(e)[f.len() + k] == e[i].1[k]);
    } else {
        assert(e.drop_last()[i] == e[i]);
        lemma_flatten_has(e.drop_last(), i, k);
        let f = flatten(e.drop_last());
        let j = choose|j: int| 0 <= j < f.len() && f[j] == e[i].1[k];
        assert(flatten(e)[j] == e[i].1[k]);
    }
}

/// What is cached is what a replay sends: after queueing an update that
/// fits the cap on its own, the flattened cache (the replay's lines) holds
/// it, as the newest line of its session.
pub proof fn cached_update_is_replayed(
    before: Seq<(Seq<char>, Seq<Vec<u8>>)>,
    session: Seq<char>,
    line: Vec<u8>,
    limit: nat,
    after: Seq<(Seq<char>, Seq<Vec<u8>>)>,
    dropped: nat,
)
    requires
        pushed(before, session, line, limit, after, dropped),
        line@.len() <= limit,
    ensures
        flatten(after).contains(line),
        exists|i: int| 0 <= i < after.len() && after[i].0 == session && after[i].1.len() > 0 && after[i].1.last() == line,
{
    if exists|i: int| 0 <= i < before.len() && before[i].0 == session {
        let i = choose|i: int|
            0 <= i < before.len() && before[i].0 == session && dropped == trim_count(before[i].1.push(line), limit)
                && after == before.update(i, (session, trimmed(before[i].1.push(line), limit)));
        newest_line_kept(before[i].1, line, limit);
        let q = after[i].1;
        lemma_flatten_has(after, i, q.len() - 1);
    } else {
        let j = choose|j: int|
            0 <= j <= before.len() && (forall|k: int| 0 <= k < j ==> seq_lt(#[trigger] before[k].0, session))
                && (forall|k: int| j <= k < before.len() ==> seq_lt(session, #[trigger] before[k].0))
                && after == before.insert(j, (session, trimmed(seq![line], limit)));
        newest_line_kept(Seq::<Vec<u8>>::empty(), line, limit);
        assert(Seq::<Vec<u8>>::empty().push(line) =~= seq![line]);
        let q = after[j].1;
        lemma_flatten_has(after, j, q.len() - 1);
    }
}

impl UpdateCache {
    /// The queues in session-name order: (session, lines).
    pub closed spec fn entries(&self) -> Seq<(Seq<char>, Seq<Vec<u8>>)> {
        Seq::new(self.sessions@.len(), |i: int| (self.sessions@[i].session@, self.sessions@[i].lines@))
    }

    /// Sessions are kept in ascending name order (what `drain` replays in).
    pub proof fn entries_sorted(&self)
        requires
            self.wf(),
        ensures
            names_sorted(self.entries()),
    {
    }

    /// The byte cap per session.
    pub closed spec fn limit(&self) -> nat {
        self.limit as nat
    }

    /// Names ascend, and each queue's byte count is exact and within the cap.
    pub closed spec fn wf(&self) -> bool {
        &&& names_sorted(self.entries())
        &&& forall|i: int| 0 <= i < self.sessions@.len() ==> {
            &&& (#[trigger] self.sessions@[i]).bytes == lines_bytes(self.sessions@[i].lines@)
            &&& self.sessions@[i].bytes <= self.limit
        }
    }

    /// An empty cache with the 8 MiB per-session cap.
    pub fn new() -> (c: Self)
        ensures
            c.wf(),
            c.limit() == SESSION_UPDATE_CACHE_LIMIT,
            c.entries() == Seq::<(Seq<char>, Seq<Vec<u8>>)>::empty(),
    {
        Self::with_limit(SESSION_UPDATE_CACHE_LIMIT)
    }

    /// An empty cache with the given per-session byte cap.
    pub fn with_limit(limit: usize) -> (c: Self)
        ensures
            c.wf(),
            c.limit() == limit,
            c.entries() == Seq::<(Seq<char>, Seq<Vec<u8>>)>::empty(),
    {
        let c = UpdateCache { limit, sessions: Vec::new() };
        assert(c.entries() =~= Seq::<(Seq<char>, Seq<Vec<u8>>)>::empty());
        c
    }

    /// Queues `line` (without its newline) for `session`, then drops the
    /// session's oldest lines while its bytes exceed the cap; returns how
    /// many were dropped. A new session takes its place in name order.
    pub fn push(&mut self, session: &str, line: Vec<u8>) -> (dropped: usize)
        requires
            old(self).wf(),
            old(self).limit() + line@.len() <= usize::MAX,
        ensures
            final(self).wf(),
            final(self).limit() == old(self).limit(),
            pushed(old(self).entries(), session@, line, old(self).limit(), final(self).entries(), dropped as nat),
    {
        let ghost e = self.entries();
        let n = self.sessions.len();
        let mut i: usize = 0;
        while i < n && str_lt(self.sessions[i].session.as_str(), session)
            invariant
                n == self.sessions@.len(),
                i <= n,
                self.entries() == e,
                forall|k: int| 0 <= k < i ==> seq_lt(#[trigger] e[k].0, session@),
            decreases n - i,
        {
            i = i + 1;
        }
        let key = session.to_owned();
        let found = i < n && self.sessions[i].session == key;
        proof {
            if found {
                assert(e[i as int].0 == session@);
            }
            if !found {
                assert forall|k: int| 0 <= k < e.len() implies e[k].0 != session@ by {
                    if k < i {
                        lemma_seq_lt_irreflexive(session@);
                    } else {
                        assert(!seq_lt(e[i as int].0, session@));
                        assert(e[i as int].0 != session@);
                        lemma_seq_lt_total(e[i as int].0, session@);
                        if k > i {
                            lemma_seq_lt_transitive(session@, e[i as int].0, e[k].0);
                            lemma_seq_lt_asymmetric(session@, e[k].0);
                            lemma_seq_lt_irreflexive(session@);
                        }
                    }
                }
            }
        }
        let len = line.len();
        let ghost oldq: Seq<Vec<u8>> = if found { e[i as int].1 } else { Seq::empty() };
        let mut q = if found {
            self.sessions.remove(i)
        } else {
            SessionQueue { session: key, lines: VecDeque::new(), bytes: 0 }
        };
        let ghost rest = self.sessions@;
        proof {
            if found {
                assert(q.lines@ == oldq);
            }
        }
        q.lines.push_back(line);
        q.bytes = q.bytes + len;
        let ghost qp = oldq.push(line);
        let _ = q.lines.len();
        proof {
            lemma_bytes_push(oldq, line);
        }
        let mut dropped: usize = 0;
        while q.bytes > self.limit
            invariant
                q.lines@ == qp.skip(dropped as int),
                q.bytes == lines_bytes(q.lines@),
                dropped <= qp.len(),
                dropped + q.lines@.len() == qp.len(),
                qp.len() <= usize::MAX,
                trim_count(qp, self.limit as nat) == dropped + trim_count(q.lines@, self.limit as nat),
                q.session@ == session@,
            decreases q.lines@.len(),
        {
            let ghost pre = q.lines@;
            proof {
                if pre.len() == 0 {
                    assert(lines_bytes(pre) == 0);
                }
            }
            let oldest = q.lines.pop_front().unwrap();
            proof {
                assert(q.lines@ =~= pre.drop_first());
            }
            q.bytes = q.bytes - oldest.len();
            dropped = dropped + 1;
            assert(q.lines@ =~= qp.skip(dropped as int));
        }
        proof {
            assert(trim_count(q.lines@, self.limit as nat) == 0);
            assert(q.lines@ =~= trimmed(qp, self.limit as nat));
            trimmed_fits_cap(qp, self.limit as nat);
        }
        self.sessions.insert(i, q);
        proof {
            let ne = self.entries();
            if found {
                assert(ne =~= e.update(i as int, (session@, trimmed(qp, self.limit as nat))));
            } else {
                assert(qp =~= seq![line]);
                assert forall|k: int| i <= k < e.len() implies seq_lt(session@, #[trigger] e[k].0) by {
                    assert(!seq_lt(e[i as int].0, session@));
                    lemma_seq_lt_total(e[i as int].0, session@);
                    if k > i {
                        lemma_seq_lt_transitive(session@, e[i as int].0, e[k].0);
                    }
                }
                assert(ne =~= e.insert(i as int, (session@, trimmed(qp, self.limit as nat))));
                assert forall|a: int, b: int| 0 <= a < b < ne.len() implies seq_lt(#[trigger] ne[a].0, #[trigger] ne[b].0) by {
                    if b < i {
                    } else if a < i && b == i {
                    } else if a < i && b > i {
                        assert(ne[b] == e[b - 1]);
                        lemma_seq_lt_transitive(ne[a].0, session@, ne[b].0);
                    } else if a == i {
                        assert(ne[b] == e[b - 1]);
                    } else {
                        assert(ne[a] == e[a - 1]);
                        assert(ne[b] == e[b - 1]);
                    }
                }
            }
            assert forall|k: int| 0 <= k < self.sessions@.len() implies {
                &&& (#[trigger] self.sessions@[k]).bytes == lines_bytes(self.sessions@[k].lines@)
                &&& self.sessions@[k].bytes <= self.limit
            } by {
                if k != i {
                    let k2 = if k < i || found { if k < i { k } else { k } } else { k - 1 };
                    assert(self.sessions@[k] == old(self).sessions@[k2]);
                }
            }
        }
        dropped
    }

    /// True when no session has a queued line.
    pub fn is_empty(&self) -> (r: bool)
        ensures
            r == forall|i: int| 0 <= i < self.entries().len() ==> (#[trigger] self.entries()[i]).1.len() == 0,
    {
        let mut i: usize = 0;
        while i < self.sessions.len()
            invariant
                i <= self.sessions@.len(),
                forall|k: int| 0 <= k < i ==> (#[trigger] self.entries()[k]).1.len() == 0,
            decreases self.sessions@.len() - i,
        {
            if self.sessions[i].lines.len() > 0 {
                assert(self.entries()[i as int].1.len() > 0);
                return false;
            }
            i = i + 1;
        }
        true
    }

    /// Hands out every queued line, sessions in name order and lines in
    /// arrival order, and empties every queue.
    pub fn drain(&mut self) -> (out: Vec<Vec<u8>>)
        requires
            old(self).wf(),
        ensures
            final(self).wf(),
            final(self).limit() == old(self).limit(),
            out@ == flatten(old(self).entries()),
            final(self).entries() == Seq::new(
                old(self).entries().len(),
                |i: int| (old(self).entries()[i].0, Seq::<Vec<u8>>::empty()),
            ),
    {
        let ghost e = self.entries();
        let mut rest: Vec<SessionQueue> = Vec::new();
        std::mem::swap(&mut rest, &mut self.sessions);
        let ghost orig = rest@;
        let mut out: Vec<Vec<u8>> = Vec::new();
        let mut done: Vec<SessionQueue> = Vec::new();
        while rest.len() > 0
            invariant
                done@.len() + rest@.len() == orig.len(),
                rest@ == orig.skip(done@.len() as int),
                out@ == flatten(e.take(done@.len() as int)),
                e.len() == orig.len(),
                forall|k: int| 0 <= k < orig.len() ==> #[trigger] e[k] == (orig[k].session@, orig[k].lines@),
                forall|k: int| 0 <= k < done@.len() ==> (#[trigger] done@[k]).session@ == orig[k].session@
                    && done@[k].lines@.len() == 0 && done@[k].bytes == 0,
            decreases rest@.len(),
        {
            let k = done.len();
            let mut q = rest.remove(0);
            let ghost q0 = q.lines@;
            proof {
                assert(q == orig[k as int]);
            }
            let ghost before = out@;
            while q.lines.len() > 0
                invariant
                    out@ == before + q0.take(q0.len() - q.lines@.len()),
                    q.lines@ == q0.skip(q0.len() - q.lines@.len()),
                    q.lines@.len() <= q0.len(),
                    k < e.len(),
                    q.session@ == e[k as int].0,
                decreases q.lines@.len(),
            {
                let ghost taken = q0.len() - q.lines@.len();
                match q.lines.pop_front() {
                    Some(line) => {
                        out.push(line);
                        assert(q0.take(taken + 1) =~= q0.take(taken).push(line));
                        assert(q.lines@ =~= q0.skip(taken + 1));
                    },
                    None => {},
                }
            }
            proof {
                assert(q0.take(q0.len() as int) =~= q0);
                assert(e.take(k + 1).drop_last() =~= e.take(k as int));
                assert(e.take(k + 1).last() == e[k as int]);
                assert(rest@ =~= orig.skip(k + 1));
            }
            done.push(SessionQueue { session: q.session, lines: VecDeque::new(), bytes: 0 });
        }
        self.sessions = done;
        proof {
            assert(e.take(e.len() as int) =~= e);
            assert forall|k: int| 0 <= k < e.len() implies #[trigger] self.entries()[k] == (e[k].0, Seq::<Vec<u8>>::empty()) by {
                assert(self.sessions@[k].lines@ =~= Seq::<Vec<u8>>::empty());
            }
            assert(self.entries() =~= Seq::new(e.len(), |i: int| (e[i].0, Seq::<Vec<u8>>::empty())));
        }
        out
    }
}

/// Text of the replay announcement for `count` replayed lines.
pub open spec fn announcement_text(count: nat) -> Seq<char> {
    "{\"jsonrpc\":\"2.0\",\"method\":\"dsh/bridge/reattach\",\"params\":{\"replayed\":"@ + decimal(count) + "}}"@
}

/// The bridge's replay announcement notification (no id), one line without newline.
pub fn replay_announcement(count: usize) -> (line: String)
    ensures
        line@ == announcement_text(count as nat),
{
    let mut s = String::new();
    push_str(&mut s, "{\"jsonrpc\":\"2.0\",\"method\":\"dsh/bridge/reattach\",\"params\":{\"replayed\":");
    push_decimal(&mut s, count as u64);
    push_str(&mut s, "}}");
    s
}


/// The session a `session/update` line belongs to (`params.sessionId`).
pub fn update_session_key(root: &RpcMessage) -> (r: Option<&str>)
    ensures
        match r {
            Some(k) => root.session_id matches Some(s) && k@ == s@,
            None => root.session_id is None,
        },
{
    match &root.session_id {
        Some(s) => Some(s.as_str()),
        None => None,
    }
}

/// The line calls method `name`.
pub open spec fn calls(root: RpcMessage, name: Seq<char>) -> bool {
    root.method matches Some(m) && m@ == name
}

/// Whether the line calls method `name`.
pub fn is_method(root: &RpcMessage, name: &str) -> (r: bool)
    ensures
        r == calls(*root, name@),
{
    match &root.method {
        Some(m) => str_eq(m.as_str(), name),
        None => false,
    }
}

/// Whether the line is a `session/update` notification.
pub fn is_session_update(root: &RpcMessage) -> (r: bool)
    ensures
        r == calls(*root, "session/update"@),
{
    is_method(root, "session/update")
}

/// A JSON-RPC response: an id that is not `null`, and no method.
pub open spec fn is_response_spec(root: RpcMessage) -> bool {
    &&& !root.has_method
    &&& root.id matches Some(id) && id@ != "null"@
}

/// Whether the line is a response.
pub fn is_response(root: &RpcMessage) -> (r: bool)
    ensures
        r == is_response_spec(*root),
{
    if root.has_method {
        return false;
    }
    match &root.id {
        Some(id) => !str_eq(id.as_str(), "null"),
        None => false,
    }
}

} // verus!
