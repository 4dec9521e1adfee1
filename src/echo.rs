//! The echo pool: edits that the local editor is expected to report back
//! after the bridge asked it to apply them.

use crate::change::{ChangeBatch, ContentChange, Range};
use vstd::prelude::*;

verus! {

/// How long, in milliseconds, an expected echo stays matchable.
pub const ECHO_TIMEOUT_MS: u64 = 200;

/// An edit that the local editor is expected to echo back.
#[derive(Debug, PartialEq, Eq)]
pub struct PendingEcho {
    pub uri: String,
    pub range: Option<Range>,
    pub text: String,
    /// Monotonic time of registration, in milliseconds.
    pub created_at: u64,
}

impl PendingEcho {
    pub fn new(uri: String, range: Option<Range>, text: String, created_at: u64) -> (r: Self)
        ensures
            r.uri == uri,
            r.range == range,
            r.text == text,
            r.created_at == created_at,
    {
        PendingEcho { uri, range, text, created_at }
    }

    /// Older than the timeout at time `now`.
    pub open spec fn is_stale(&self, now: u64) -> bool {
        now > self.created_at + ECHO_TIMEOUT_MS
    }

    /// Structurally equal to entry `c` of a batch for document `uri`.
    pub open spec fn matches(&self, uri: Seq<char>, c: (Option<Range>, Seq<char>)) -> bool {
        &&& self.uri@ == uri
        &&& self.range == c.0
        &&& self.text@ == c.1
    }

    /// Still matchable at `now` and equal to entry `c` for document `uri`.
    pub open spec fn answers(&self, uri: Seq<char>, c: (Option<Range>, Seq<char>), now: u64) -> bool {
        !self.is_stale(now) && self.matches(uri, c)
    }
}

impl Clone for PendingEcho {
    fn clone(&self) -> (r: Self)
        ensures
            r == *self,
    {
        PendingEcho {
            uri: self.uri.clone(),
            range: self.range,
            text: self.text.clone(),
            created_at: self.created_at,
        }
    }
}

/// Index of the first entry of `s`, from `i` on, that answers `c`; -1 if none.
pub open spec fn first_answer_from(
    s: Seq<PendingEcho>,
    uri: Seq<char>,
    c: (Option<Range>, Seq<char>),
    now: u64,
    i: int,
) -> int
    decreases s.len() - i,
{
    if i < 0 || i >= s.len() {
        -1
    } else if s[i].answers(uri, c, now) {
        i
    } else {
        first_answer_from(s, uri, c, now, i + 1)
    }
}

/// Index of the first entry of `s` that answers `c`; -1 if none.
pub open spec fn first_answer(
    s: Seq<PendingEcho>,
    uri: Seq<char>,
    c: (Option<Range>, Seq<char>),
    now: u64,
) -> int {
    first_answer_from(s, uri, c, now, 0)
}

/// `s` after consuming the first entry that answers `c`, if any.
pub open spec fn consumed(
    s: Seq<PendingEcho>,
    uri: Seq<char>,
    c: (Option<Range>, Seq<char>),
    now: u64,
) -> Seq<PendingEcho> {
    let k = first_answer(s, uri, c, now);
    if k >= 0 {
        s.remove(k)
    } else {
        s
    }
}

/// The entries of `s` that are not stale at `now`, in order.
pub open spec fn live(s: Seq<PendingEcho>, now: u64) -> Seq<PendingEcho> {
    s.filter(|e: PendingEcho| !e.is_stale(now))
}

/// Tests the entries of a batch for document `uri` against the pool in turn:
/// each one that finds an answer consumes it and is dropped, each other one
/// is kept.  Gives the pool afterwards and the kept entries, in order.
pub open spec fn screen(
    pool: Seq<PendingEcho>,
    uri: Seq<char>,
    changes: Seq<ContentChange>,
    now: u64,
) -> (Seq<PendingEcho>, Seq<ContentChange>)
    decreases changes.len(),
{
    if changes.len() == 0 {
        (pool, seq![])
    } else {
        let prev = screen(pool, uri, changes.drop_last(), now);
        let c = changes.last();
        if first_answer(prev.0, uri, c@, now) >= 0 {
            (consumed(prev.0, uri, c@, now), prev.1)
        } else {
            (prev.0, prev.1.push(c))
        }
    }
}

/// The echoes expected once the entries of `batch` are applied at `now`,
/// one per entry, in order.
pub open spec fn expected_echoes(batch: ChangeBatch, now: u64) -> Seq<PendingEcho> {
    Seq::new(
        batch.content_changes@.len(),
        |i: int|
            PendingEcho {
                uri: batch.uri,
                range: batch.content_changes@[i].range,
                text: batch.content_changes@[i].text,
                created_at: now,
            },
    )
}

proof fn lemma_first_answer_push(
    s: Seq<PendingEcho>,
    x: PendingEcho,
    uri: Seq<char>,
    c: (Option<Range>, Seq<char>),
    now: u64,
    i: int,
)
    requires
        0 <= i <= s.len(),
    ensures
        first_answer_from(s.push(x), uri, c, now, i) == if first_answer_from(s, uri, c, now, i)
            >= 0 {
            first_answer_from(s, uri, c, now, i)
        } else if x.answers(uri, c, now) {
            s.len() as int
        } else {
            -1
        },
    decreases s.len() - i,
{
    if i < s.len() {
        assert(s.push(x)[i] == s[i]);
        lemma_first_answer_push(s, x, uri, c, now, i + 1);
    } else {
        assert(s.push(x)[i] == x);
        assert(first_answer_from(s.push(x), uri, c, now, i + 1) == -1);
    }
}

proof fn lemma_first_answer_answers(
    s: Seq<PendingEcho>,
    uri: Seq<char>,
    c: (Option<Range>, Seq<char>),
    now: u64,
    i: int,
)
    ensures
        first_answer_from(s, uri, c, now, i) >= 0 ==> first_answer_from(s, uri, c, now, i)
            < s.len() && s[first_answer_from(s, uri, c, now, i)].answers(uri, c, now),
    decreases s.len() - i,
{
    if 0 <= i < s.len() && !s[i].answers(uri, c, now) {
        lemma_first_answer_answers(s, uri, c, now, i + 1);
    }
}

/// An echo registered and then, before it times out, met by an identical
/// entry is consumed exactly once: the first attempt succeeds and leaves
/// the pool as it was before the registration, a second attempt fails.
/// (An identical live echo already pending would answer the second attempt.)
pub proof fn lemma_echo_consumed_once(pool: Seq<PendingEcho>, e: PendingEcho, now: u64)
    requires
        !e.is_stale(now),
        first_answer(pool, e.uri@, (e.range, e.text@), now) < 0,
    ensures
        first_answer(pool.push(e), e.uri@, (e.range, e.text@), now) >= 0,
        consumed(pool.push(e), e.uri@, (e.range, e.text@), now) == pool,
        first_answer(consumed(pool.push(e), e.uri@, (e.range, e.text@), now), e.uri@, (e.range, e.text@), now) < 0,
{
    lemma_first_answer_push(pool, e, e.uri@, (e.range, e.text@), now, 0);
    assert(pool.push(e).remove(pool.len() as int) =~= pool);
}

/// An echo older than the timeout is never the one consumed, and expiry
/// drops it.
pub proof fn lemma_stale_echo_unmatchable(
    s: Seq<PendingEcho>,
    j: int,
    uri: Seq<char>,
    c: (Option<Range>, Seq<char>),
    now: u64,
)
    requires
        0 <= j < s.len(),
        s[j].is_stale(now),
    ensures
        first_answer(s, uri, c, now) != j,
        !live(s, now).contains(s[j]),
{
    lemma_first_answer_answers(s, uri, c, now, 0);
    if live(s, now).contains(s[j]) {
        let k = choose|k: int| 0 <= k < live(s, now).len() && live(s, now)[k] == s[j];
        s.lemma_filter_pred(|e: PendingEcho| !e.is_stale(now), k);
    }
}

fn is_stale(e: &PendingEcho, now: u64) -> (r: bool)
    ensures
        r == e.is_stale(now),
{
    now > e.created_at && now - e.created_at > ECHO_TIMEOUT_MS
}

fn same_range(a: &Option<Range>, b: &Option<Range>) -> (r: bool)
    ensures
        r == (*a == *b),
{
    match (a, b) {
        (Some(x), Some(y)) => x.start == y.start && x.end == y.end,
        (None, None) => true,
        _ => false,
    }
}

/// The pool of expected echoes of one bridge.
pub struct EchoPool {
    entries: Vec<PendingEcho>,
}

impl View for EchoPool {
    type V = Seq<PendingEcho>;

    closed spec fn view(&self) -> Seq<PendingEcho> {
        self.entries@
    }
}

impl EchoPool {
    pub fn new() -> (r: Self)
        ensures
            r@ == Seq::<PendingEcho>::empty(),
    {
        EchoPool { entries: Vec::new() }
    }

    pub fn len(&self) -> (r: usize)
        ensures
            r == self@.len(),
    {
        self.entries.len()
    }

    /// Records an edit that the local editor is about to echo.
    pub fn register(&mut self, expected: PendingEcho)
        ensures
            final(self)@ == old(self)@.push(expected),
    {
        self.entries.push(expected);
    }

    /// Records the echoes of every entry of `batch`, applied at `now`.
    pub fn expect_echoes(&mut self, batch: &ChangeBatch, now: u64)
        ensures
            final(self)@ == old(self)@ + expected_echoes(*batch, now),
    {
        let ghost start = self@;
        let mut k: usize = 0;
        while k < batch.content_changes.len()
            invariant
                k <= batch.content_changes@.len(),
                self@ == start + expected_echoes(*batch, now).take(k as int),
            decreases batch.content_changes@.len() - k,
        {
            let entry = &batch.content_changes[k];
            self.register(
                PendingEcho::new(batch.uri.clone(), entry.range, entry.text.clone(), now),
            );
            k += 1;
            assert(self@ =~= start + expected_echoes(*batch, now).take(k as int));
        }
        assert(expected_echoes(*batch, now).take(k as int) =~= expected_echoes(*batch, now));
    }

    /// Removes the first entry that is still live at `now` and equal to
    /// entry `change` of a batch for document `uri`; tells whether there was
    /// one.
    pub fn try_consume_matching(&mut self, uri: &String, change: &ContentChange, now: u64) -> (r:
        bool)
        ensures
            r == (first_answer(old(self)@, uri@, change@, now) >= 0),
            final(self)@ == consumed(old(self)@, uri@, change@, now),
    {
        let ghost s = self@;
        let mut i: usize = 0;
        while i < self.entries.len()
            invariant
                self@ == s,
                old(self)@ == s,
                i <= s.len(),
                first_answer(s, uri@, change@, now) == first_answer_from(
                    s,
                    uri@,
                    change@,
                    now,
                    i as int,
                ),
            decreases s.len() - i,
        {
            let e = &self.entries[i];
            if !is_stale(e, now) && e.uri == *uri && same_range(&e.range, &change.range) && e.text
                == change.text {
                assert(first_answer_from(s, uri@, change@, now, i as int) == i as int);
                self.entries.remove(i);
                return true;
            }
            i += 1;
        }
        false
    }

    /// Drops every entry that is stale at `now`; gives how many were dropped.
    pub fn expire_stale(&mut self, now: u64) -> (r: usize)
        ensures
            final(self)@ == live(old(self)@, now),
            r == old(self)@.len() - final(self)@.len(),
    {
        let ghost s = self@;
        let mut kept: Vec<PendingEcho> = Vec::new();
        let mut i: usize = 0;
        while i < self.entries.len()
            invariant
                self@ == s,
                i <= s.len(),
                kept@ == live(s.take(i as int), now),
            decreases s.len() - i,
        {
            if !is_stale(&self.entries[i], now) {
                kept.push(self.entries[i].clone());
            }
            proof {
                reveal(Seq::filter);
                assert(s.take(i + 1).drop_last() =~= s.take(i as int));
                assert(s.take(i + 1).last() == s[i as int]);
            }
            i += 1;
        }
        proof {
            assert(s.take(s.len() as int) =~= s);
            s.lemma_filter_len(|e: PendingEcho| !e.is_stale(now));
        }
        let dropped = self.entries.len() - kept.len();
        self.entries = kept;
        dropped
    }

    /// Expires stale entries, then drops from `batch` each entry that answers
    /// an expected echo, consuming that echo.  The rest of the batch is kept
    /// in order, under the same document and version.
    pub fn suppress_echoes(&mut self, batch: &ChangeBatch, now: u64) -> (r: ChangeBatch)
        ensures
            ({
                let s = screen(live(old(self)@, now), batch.uri@, batch.content_changes@, now);
                &&& final(self)@ == s.0
                &&& r.content_changes@ == s.1
            }),
            r.uri == batch.uri,
            r.version == batch.version,
    {
        self.expire_stale(now);
        let ghost pool = self@;
        let ghost changes = batch.content_changes@;
        let mut kept: Vec<ContentChange> = Vec::new();
        let mut k: usize = 0;
        while k < batch.content_changes.len()
            invariant
                changes == batch.content_changes@,
                k <= changes.len(),
                (self@, kept@) == screen(pool, batch.uri@, changes.take(k as int), now),
            decreases changes.len() - k,
        {
            proof {
                assert(changes.take(k + 1).drop_last() =~= changes.take(k as int));
            }
            if !self.try_consume_matching(&batch.uri, &batch.content_changes[k], now) {
                kept.push(batch.content_changes[k].clone());
            }
            k += 1;
        }
        assert(changes.take(changes.len() as int) =~= changes);
        ChangeBatch { uri: batch.uri.clone(), version: batch.version, content_changes: kept }
    }
}

} // verus!
