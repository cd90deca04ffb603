//! The idempotency store: `"<method>:<key>"` mapped to the parameters and
//! the response of the first call, forgotten once older than the TTL.
//!
//! Parameters and envelopes are held as canonical JSON text; times are
//! milliseconds supplied by the caller.
use vstd::prelude::*;

verus! {

/// A response as it was sent: HTTP status and envelope text.
#[derive(Debug, Clone)]
pub struct StoredResponse {
    pub status: u16,
    pub envelope: String,
}

/// The verdict on a mutating request.
#[derive(Debug, Clone)]
pub enum IdempotencyCheck {
    New,
    Replay(StoredResponse),
    Conflict,
}

/// One remembered request.
#[derive(Debug, Clone)]
pub struct IdempotencyEntry {
    pub key: String,
    pub params: String,
    pub response: StoredResponse,
    pub created_at: u64,
}

/// The composite key of a method and an idempotency key.
pub open spec fn composite(method: Seq<char>, key: Seq<char>) -> Seq<char> {
    method + ":"@ + key
}

/// Whether an entry is still within its time to live at `now`.
pub open spec fn alive(e: IdempotencyEntry, now: u64, ttl: u64) -> bool {
    now <= e.created_at || now - e.created_at <= ttl
}

pub open spec fn alive_pred(now: u64, ttl: u64) -> spec_fn(IdempotencyEntry) -> bool {
    |e: IdempotencyEntry| alive(e, now, ttl)
}

pub open spec fn other_key_pred(k: Seq<char>) -> spec_fn(IdempotencyEntry) -> bool {
    |e: IdempotencyEntry| e.key@ != k
}

/// The entries that survive cleanup at `now`.
pub open spec fn pruned(s: Seq<IdempotencyEntry>, now: u64, ttl: u64) -> Seq<IdempotencyEntry> {
    s.filter(alive_pred(now, ttl))
}

/// The last entry under key `k`.
pub open spec fn lookup(s: Seq<IdempotencyEntry>, k: Seq<char>) -> Option<IdempotencyEntry>
    decreases s.len(),
{
    if s.len() == 0 {
        None
    } else if s.last().key@ == k {
        Some(s.last())
    } else {
        lookup(s.drop_last(), k)
    }
}

/// The verdict for key `k` and parameters `p` at `now`.
pub open spec fn check_result(s: Seq<IdempotencyEntry>, k: Seq<char>, p: Seq<char>, now: u64, ttl: u64) -> IdempotencyCheck {
    match lookup(pruned(s, now, ttl), k) {
        None => IdempotencyCheck::New,
        Some(e) => if e.params@ == p {
            IdempotencyCheck::Replay(e.response)
        } else {
            IdempotencyCheck::Conflict
        },
    }
}

/// The entries after `e` is stored at `now`, replacing any under its key.
pub open spec fn stored(s: Seq<IdempotencyEntry>, e: IdempotencyEntry, now: u64, ttl: u64) -> Seq<IdempotencyEntry> {
    pruned(s, now, ttl).filter(other_key_pred(e.key@)).push(e)
}

/// The in-memory store.
pub struct InMemoryIdempotencyStore {
    entries: Vec<IdempotencyEntry>,
    ttl: u64,
}

fn copy_response(r: &StoredResponse) -> (o: StoredResponse)
    ensures
        o == *r,
{
    StoredResponse { status: r.status, envelope: r.envelope.clone() }
}

fn composite_key(method: &str, key: &str) -> (r: String)
    ensures
        r@ == composite(method@, key@),
{
    let mut r = method.to_owned();
    r.append(":");
    r.append(key);
    r
}

impl InMemoryIdempotencyStore {
    pub closed spec fn spec_entries(&self) -> Seq<IdempotencyEntry> {
        self.entries@
    }

    pub closed spec fn spec_ttl(&self) -> u64 {
        self.ttl
    }

    /// A store that forgets entries older than `ttl_ms`.
    pub fn new(ttl_ms: u64) -> (r: InMemoryIdempotencyStore)
        ensures
            r.spec_entries().len() == 0,
            r.spec_ttl() == ttl_ms,
    {
        InMemoryIdempotencyStore { entries: Vec::new(), ttl: ttl_ms }
    }

    fn cleanup(&mut self, now: u64)
        ensures
            final(self).spec_entries() == pruned(old(self).spec_entries(), now, old(self).spec_ttl()),
            final(self).spec_ttl() == old(self).spec_ttl(),
    {
        let ghost s = self.entries@;
        let ghost pred = alive_pred(now, self.ttl);
        let mut kept: Vec<IdempotencyEntry> = Vec::new();
        let mut i: usize = 0;
        while i < self.entries.len()
            invariant
                self.entries@ == s,
                pred == alive_pred(now, self.ttl),
                0 <= i <= s.len(),
                kept@ == s.subrange(0, i as int).filter(pred),
            decreases s.len() - i,
        {
            let e = &self.entries[i];
            if now <= e.created_at || now - e.created_at <= self.ttl {
                kept.push(
                    IdempotencyEntry {
                        key: e.key.clone(),
                        params: e.params.clone(),
                        response: copy_response(&e.response),
                        created_at: e.created_at,
                    },
                );
            }
            proof {
                reveal(Seq::filter);
                assert(s.subrange(0, i + 1).drop_last() =~= s.subrange(0, i as int));
            }
            i = i + 1;
        }
        assert(s.subrange(0, i as int) =~= s);
        self.entries = kept;
    }

    /// Forgets expired entries, then gives the verdict for the request.
    pub fn check(&mut self, method: &str, key: &str, params: &str, now: u64) -> (r: IdempotencyCheck)
        ensures
            r == check_result(old(self).spec_entries(), composite(method@, key@), params@, now, old(self).spec_ttl()),
            final(self).spec_entries() == pruned(old(self).spec_entries(), now, old(self).spec_ttl()),
            final(self).spec_ttl() == old(self).spec_ttl(),
    {
        self.cleanup(now);
        let k = composite_key(method, key);
        let mut found: Option<usize> = None;
        let mut i: usize = 0;
        while i < self.entries.len()
            invariant
                0 <= i <= self.entries@.len(),
                found matches Some(j) ==> j < i && lookup(self.entries@.subrange(0, i as int), k@) == Some(
                    self.entries@[j as int],
                ),
                found is None ==> lookup(self.entries@.subrange(0, i as int), k@) is None,
            decreases self.entries@.len() - i,
        {
            let ghost next = self.entries@.subrange(0, i + 1);
            assert(next.drop_last() =~= self.entries@.subrange(0, i as int));
            if crate::text::str_eq(self.entries[i].key.as_str(), k.as_str()) {
                found = Some(i);
            }
            i = i + 1;
        }
        assert(self.entries@.subrange(0, i as int) =~= self.entries@);
        match found {
            None => IdempotencyCheck::New,
            Some(j) => {
                let e = &self.entries[j];
                if crate::text::str_eq(e.params.as_str(), params) {
                    IdempotencyCheck::Replay(copy_response(&e.response))
                } else {
                    IdempotencyCheck::Conflict
                }
            },
        }
    }

    /// Forgets expired entries, then remembers the response of a request.
    pub fn store(&mut self, method: &str, key: &str, params: &str, response: &StoredResponse, now: u64)
        ensures
            final(self).spec_ttl() == old(self).spec_ttl(),
            final(self).spec_entries().len() > 0,
            final(self).spec_entries().last().key@ == composite(method@, key@),
            final(self).spec_entries().last().params@ == params@,
            final(self).spec_entries().last().response == *response,
            final(self).spec_entries().last().created_at == now,
            final(self).spec_entries() == stored(
                old(self).spec_entries(),
                final(self).spec_entries().last(),
                now,
                old(self).spec_ttl(),
            ),
    {
        self.cleanup(now);
        let k = composite_key(method, key);
        let ghost s = self.entries@;
        let ghost pred = other_key_pred(k@);
        let mut kept: Vec<IdempotencyEntry> = Vec::new();
        let mut i: usize = 0;
        while i < self.entries.len()
            invariant
                self.entries@ == s,
                pred == other_key_pred(k@),
                0 <= i <= s.len(),
                kept@ == s.subrange(0, i as int).filter(pred),
            decreases s.len() - i,
        {
            let e = &self.entries[i];
            if !crate::text::str_eq(e.key.as_str(), k.as_str()) {
                kept.push(
                    IdempotencyEntry {
                        key: e.key.clone(),
                        params: e.params.clone(),
                        response: copy_response(&e.response),
                        created_at: e.created_at,
                    },
                );
            }
            proof {
                reveal(Seq::filter);
                assert(s.subrange(0, i + 1).drop_last() =~= s.subrange(0, i as int));
            }
            i = i + 1;
        }
        assert(s.subrange(0, i as int) =~= s);
        kept.push(
            IdempotencyEntry {
                key: k,
                params: params.to_owned(),
                response: copy_response(response),
                created_at: now,
            },
        );
        self.entries = kept;
    }
}

proof fn lemma_lookup_none(s: Seq<IdempotencyEntry>, k: Seq<char>)
    requires
        forall|i: int| 0 <= i < s.len() ==> (#[trigger] s[i]).key@ != k,
    ensures
        lookup(s, k) is None,
    decreases s.len(),
{
    if s.len() > 0 {
        assert(s.last() == s[s.len() - 1]);
        lemma_lookup_none(s.drop_last(), k);
    }
}

/// The entry just stored is found again while it lives.
proof fn lemma_fresh_entry(s: Seq<IdempotencyEntry>, e: IdempotencyEntry, t: u64, t2: u64, ttl: u64)
    requires
        e.created_at == t,
        t <= t2,
        t2 - t <= ttl,
    ensures
        lookup(pruned(stored(s, e, t, ttl), t2, ttl), e.key@) == Some(e),
{
    reveal(Seq::filter);
    let s2 = stored(s, e, t, ttl);
    assert(s2.drop_last() =~= pruned(s, t, ttl).filter(other_key_pred(e.key@)));
    assert(alive(e, t2, ttl));
    assert(pruned(s2, t2, ttl) == pruned(s2.drop_last(), t2, ttl).push(e));
}

/// Repeating a request with the same parameters within the TTL replays the
/// stored response.
pub proof fn lemma_replay_within_ttl(
    s: Seq<IdempotencyEntry>,
    e: IdempotencyEntry,
    t: u64,
    t2: u64,
    ttl: u64,
)
    requires
        e.created_at == t,
        t <= t2,
        t2 - t <= ttl,
    ensures
        check_result(stored(s, e, t, ttl), e.key@, e.params@, t2, ttl) == IdempotencyCheck::Replay(e.response),
{
    lemma_fresh_entry(s, e, t, t2, ttl);
}

/// The same key with other parameters within the TTL is a conflict.
pub proof fn lemma_conflict_within_ttl(
    s: Seq<IdempotencyEntry>,
    e: IdempotencyEntry,
    p: Seq<char>,
    t: u64,
    t2: u64,
    ttl: u64,
)
    requires
        e.created_at == t,
        t <= t2,
        t2 - t <= ttl,
        p != e.params@,
    ensures
        check_result(stored(s, e, t, ttl), e.key@, p, t2, ttl) == IdempotencyCheck::Conflict,
{
    lemma_fresh_entry(s, e, t, t2, ttl);
}

/// Once the TTL has passed, the same request is new again.
pub proof fn lemma_new_after_ttl(s: Seq<IdempotencyEntry>, e: IdempotencyEntry, p: Seq<char>, t: u64, t2: u64, ttl: u64)
    requires
        e.created_at == t,
        t2 > t,
        t2 - t > ttl,
    ensures
        check_result(stored(s, e, t, ttl), e.key@, p, t2, ttl) == IdempotencyCheck::New,
{
    reveal(Seq::filter);
    let k = e.key@;
    let base = pruned(s, t, ttl).filter(other_key_pred(k));
    let s2 = stored(s, e, t, ttl);
    assert(s2.drop_last() =~= base);
    assert(!alive(e, t2, ttl));
    assert(pruned(s2, t2, ttl) == pruned(base, t2, ttl));
    pruned(s, t, ttl).filter_lemma(other_key_pred(k));
    base.filter_lemma(alive_pred(t2, ttl));
    let q = pruned(base, t2, ttl);
    assert forall|i: int| 0 <= i < q.len() implies (#[trigger] q[i]).key@ != k by {
        assert(base.contains(q[i])) by {
            lemma_filter_sub(base, alive_pred(t2, ttl), i);
        }
        let j = choose|j: int| 0 <= j < base.len() && base[j] == q[i];
        assert(other_key_pred(k)(base[j]));
    }
    lemma_lookup_none(q, k);
}

/// Every element of a filtered sequence comes from the sequence.
proof fn lemma_filter_sub(s: Seq<IdempotencyEntry>, f: spec_fn(IdempotencyEntry) -> bool, i: int)
    requires
        0 <= i < s.filter(f).len(),
    ensures
        s.contains(s.filter(f)[i]),
    decreases s.len(),
{
    reveal(Seq::filter);
    if s.len() > 0 {
        let sub = s.drop_last().filter(f);
        if i < sub.len() {
            assert(s.filter(f)[i] == sub[i]);
            lemma_filter_sub(s.drop_last(), f, i);
            let j = choose|j: int| 0 <= j < s.drop_last().len() && s.drop_last()[j] == sub[i];
            assert(s[j] == sub[i]);
        } else {
            assert(s.filter(f)[i] == s.last());
            assert(s[s.len() - 1] == s.last());
        }
    }
}

} // verus!
