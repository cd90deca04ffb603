//! The event bus: one sequence counter, a bounded history ring, and
//! subscriptions with topic and resource filters, cursors and replay.
//!
//! Live fan-out is left to the caller: `publish` hands back the event that
//! was appended so that it can be broadcast.
use vstd::prelude::*;

use crate::cursor::{cursor_seq, cursor_sequence, cursor_text, format_cursor, lemma_cursor_round_trip};
use crate::errors::{ApiError, RpcErrorCode};
use crate::protocol::{is_known_topic, stream_topics};
use crate::side_effects::EffectPayload;
use crate::text::{decimal, hex, pad4, push_decimal, push_hex4, str_eq, trim, trim_str};

verus! {

/// How many events the history ring keeps.
pub const HISTORY_LIMIT: usize = 2048;

/// The replay limit of a subscription that does not name one.
pub const DEFAULT_REPLAY_LIMIT: u16 = 200;

/// The keepalive period of a stream connection.
pub const KEEPALIVE_INTERVAL_MS: u64 = 15000;

/// The characters of each string.
pub open spec fn views(v: Seq<String>) -> Seq<Seq<char>> {
    v.map_values(|s: String| s@)
}

/// `s` without repeats, each kept where it first occurs.
pub open spec fn dedup(s: Seq<Seq<char>>) -> Seq<Seq<char>>
    decreases s.len(),
{
    if s.len() == 0 {
        s
    } else {
        let d = dedup(s.drop_last());
        if d.contains(s.last()) {
            d
        } else {
            d.push(s.last())
        }
    }
}

/// How an event reaches a subscriber.
#[derive(Debug, Clone, Copy, PartialEq, Eq, Structural)]
pub enum ReplayMode {
    Live,
    Replay,
    Resume,
}

impl ReplayMode {
    pub fn as_str(self) -> (r: &'static str)
        ensures
            r@ == (match self {
                ReplayMode::Live => "live"@,
                ReplayMode::Replay => "replay"@,
                ReplayMode::Resume => "resume"@,
            }),
    {
        match self {
            ReplayMode::Live => "live",
            ReplayMode::Replay => "replay",
            ReplayMode::Resume => "resume",
        }
    }
}

/// What an event carries.
#[derive(Debug, Clone)]
pub enum EventPayload {
    /// A JSON document supplied by the publisher, as text.
    Json(String),
    /// `{intervalMs}` of a keepalive.
    Keepalive { interval_ms: u64 },
    /// `{code: "BACKPRESSURE_DROPPED", message, retryable: true}`.
    Backpressure { dropped: u64, message: String },
    /// The payload of an RPC side effect.
    Effect(EffectPayload),
}

#[derive(Debug, Clone)]
pub struct StreamResource {
    pub kind: String,
    pub id: String,
}

#[derive(Debug, Clone)]
pub struct StreamReplay {
    pub mode: ReplayMode,
    pub requested_cursor: Option<String>,
    pub batch: Option<u64>,
}

/// One event of the stream.
#[derive(Debug, Clone)]
pub struct StreamEventEnvelope {
    pub api_version: String,
    pub stream: String,
    pub topic: String,
    pub cursor: String,
    pub sequence: u64,
    pub ts: u64,
    pub resource: StreamResource,
    pub replay: StreamReplay,
    pub payload: EventPayload,
}

/// Resource filters of a subscription; an empty list lets everything pass.
#[derive(Debug, Clone)]
pub struct SubscriptionFilters {
    pub resource_ids: Vec<String>,
    pub resource_types: Vec<String>,
}

/// What `stream.subscribe` asks for.
#[derive(Debug, Clone)]
pub struct StreamSubscribeParams {
    pub topics: Vec<String>,
    pub cursor: Option<String>,
    pub replay_limit: Option<u16>,
    pub filters: SubscriptionFilters,
}

/// The answer to `stream.subscribe`.
#[derive(Debug, Clone)]
pub struct StreamSubscribeResult {
    pub subscription_id: String,
    pub accepted_topics: Vec<String>,
    pub cursor: String,
}

/// The history a subscriber is owed when it attaches.
#[derive(Debug, Clone)]
pub struct ReplayBatch {
    pub events: Vec<StreamEventEnvelope>,
    pub dropped_count: usize,
}

#[derive(Debug, Clone)]
pub struct SubscriptionRecord {
    pub id: String,
    pub topics: Vec<String>,
    pub filters: SubscriptionFilters,
    pub cursor: String,
    pub replay_limit: usize,
    pub explicit_cursor: bool,
    pub principal: String,
}

pub open spec fn filters_match(f: SubscriptionFilters, e: StreamEventEnvelope) -> bool {
    &&& (f.resource_ids@.len() == 0 || views(f.resource_ids@).contains(e.resource.id@))
    &&& (f.resource_types@.len() == 0 || views(f.resource_types@).contains(e.resource.kind@))
}

/// Whether a subscription receives an event.
pub open spec fn sub_matches(s: SubscriptionRecord, e: StreamEventEnvelope) -> bool {
    views(s.topics@).contains(e.topic@) && filters_match(s.filters, e)
}

pub open spec fn replay_pred(s: SubscriptionRecord, after: u64) -> spec_fn(StreamEventEnvelope) -> bool {
    |e: StreamEventEnvelope| e.sequence > after && sub_matches(s, e)
}

/// The mode of a replay: resume when the subscriber supplied its checkpoint.
pub open spec fn replay_mode_of(s: SubscriptionRecord) -> ReplayMode {
    if s.explicit_cursor {
        ReplayMode::Resume
    } else {
        ReplayMode::Replay
    }
}

/// `e` as it is handed out in a replay batch.
pub open spec fn marked(e: StreamEventEnvelope, mode: ReplayMode, cursor: String, batch: u64) -> StreamEventEnvelope {
    StreamEventEnvelope {
        replay: StreamReplay { mode, requested_cursor: Some(cursor), batch: Some(batch) },
        ..e
    }
}

/// The id minted for a subscription.
pub open spec fn subscription_id_text(now: u64, counter: u64) -> Seq<char> {
    "sub-"@ + decimal(now as nat) + "-"@ + pad4(hex(counter as nat))
}

/// Whether every topic is in the catalog, and there is at least one.
pub open spec fn topics_valid(topics: Seq<String>) -> bool {
    topics.len() > 0 && forall|i: int| 0 <= i < topics.len() ==> stream_topics().contains(#[trigger] topics[i]@)
}

/// A supplied cursor that does not parse.
pub open spec fn bad_cursor(c: Option<String>) -> bool {
    match c {
        Some(c) => cursor_seq(c@) is None,
        None => false,
    }
}

/// One input of a stream connection's loop.
#[derive(Debug, Clone)]
pub enum StreamInput {
    /// The keepalive ticker fired.
    Tick,
    /// The live channel delivered an event.
    Live(StreamEventEnvelope),
    /// The live channel skipped this many events for a slow reader.
    Lagged(u64),
    /// The client sent a ping with this payload.
    Ping(Vec<u8>),
    /// The client closed the socket, or reading failed.
    Closed,
    /// Any other client frame.
    Other,
}

/// What a stream connection does next.
#[derive(Debug, Clone)]
pub enum StreamStep {
    Send(StreamEventEnvelope),
    Pong(Vec<u8>),
    Skip,
    Stop,
}

/// The subscription counter after one more subscription.
pub open spec fn next_sub_counter(c: u64) -> u64 {
    if c == u64::MAX {
        c
    } else {
        (c + 1) as u64
    }
}

/// The id of a subscription minted at `now` with counter value `counter`.
pub fn subscription_id(now: u64, counter: u64) -> (r: String)
    ensures
        r@ == subscription_id_text(now, counter),
{
    let mut r = "sub-".to_owned();
    push_decimal(&mut r, now);
    r.append("-");
    push_hex4(&mut r, counter);
    r
}

/// Whether the events are in strictly increasing sequence order.
pub open spec fn increasing(s: Seq<StreamEventEnvelope>) -> bool {
    forall|i: int, j: int| 0 <= i < j < s.len() ==> (#[trigger] s[i]).sequence < (#[trigger] s[j]).sequence
}

fn clone_opt(o: &Option<String>) -> (r: Option<String>)
    ensures
        r == *o,
{
    match o {
        Some(s) => Some(s.clone()),
        None => None,
    }
}

fn clone_strings(v: &Vec<String>) -> (r: Vec<String>)
    ensures
        r@ == v@,
{
    let mut out: Vec<String> = Vec::new();
    let mut i: usize = 0;
    while i < v.len()
        invariant
            0 <= i <= v@.len(),
            out@ == v@.subrange(0, i as int),
        decreases v@.len() - i,
    {
        out.push(v[i].clone());
        assert(out@ =~= v@.subrange(0, i + 1));
        i = i + 1;
    }
    assert(out@ =~= v@);
    out
}

/// Whether `s` is one of `v`.
pub fn strings_contain(v: &Vec<String>, s: &str) -> (r: bool)
    ensures
        r == views(v@).contains(s@),
{
    let mut i: usize = 0;
    while i < v.len()
        invariant
            0 <= i <= v@.len(),
            forall|j: int| 0 <= j < i ==> v@[j]@ != s@,
        decreases v@.len() - i,
    {
        if str_eq(v[i].as_str(), s) {
            assert(views(v@)[i as int] == s@);
            return true;
        }
        i = i + 1;
    }
    proof {
        if views(v@).contains(s@) {
            let k = choose|k: int| 0 <= k < views(v@).len() && views(v@)[k] == s@;
            assert(v@[k]@ == s@);
        }
    }
    false
}

impl EventPayload {
    pub fn copy(&self) -> (r: EventPayload)
        ensures
            r == *self,
    {
        match self {
            EventPayload::Json(s) => EventPayload::Json(s.clone()),
            EventPayload::Keepalive { interval_ms } => EventPayload::Keepalive { interval_ms: *interval_ms },
            EventPayload::Backpressure { dropped, message } => EventPayload::Backpressure {
                dropped: *dropped,
                message: message.clone(),
            },
            EventPayload::Effect(p) => EventPayload::Effect(p.copy()),
        }
    }
}

impl StreamEventEnvelope {
    pub fn copy(&self) -> (r: StreamEventEnvelope)
        ensures
            r == *self,
    {
        StreamEventEnvelope {
            api_version: self.api_version.clone(),
            stream: self.stream.clone(),
            topic: self.topic.clone(),
            cursor: self.cursor.clone(),
            sequence: self.sequence,
            ts: self.ts,
            resource: StreamResource { kind: self.resource.kind.clone(), id: self.resource.id.clone() },
            replay: StreamReplay {
                mode: self.replay.mode,
                requested_cursor: clone_opt(&self.replay.requested_cursor),
                batch: self.replay.batch,
            },
            payload: self.payload.copy(),
        }
    }
}

impl SubscriptionFilters {
    /// Filters that let every event pass.
    pub fn new() -> (r: SubscriptionFilters)
        ensures
            r.resource_ids@.len() == 0,
            r.resource_types@.len() == 0,
    {
        SubscriptionFilters { resource_ids: Vec::new(), resource_types: Vec::new() }
    }

    /// Adds a resource id; blank values are ignored and repeats kept once.
    pub fn add_resource_id(&mut self, value: &str)
        ensures
            final(self).resource_types == old(self).resource_types,
            views(final(self).resource_ids@) == (if trim(value@).len() == 0 || views(
                old(self).resource_ids@,
            ).contains(value@) {
                views(old(self).resource_ids@)
            } else {
                views(old(self).resource_ids@).push(value@)
            }),
    {
        add_filter_value(&mut self.resource_ids, value);
    }

    /// Adds a resource type; blank values are ignored and repeats kept once.
    pub fn add_resource_type(&mut self, value: &str)
        ensures
            final(self).resource_ids == old(self).resource_ids,
            views(final(self).resource_types@) == (if trim(value@).len() == 0 || views(
                old(self).resource_types@,
            ).contains(value@) {
                views(old(self).resource_types@)
            } else {
                views(old(self).resource_types@).push(value@)
            }),
    {
        add_filter_value(&mut self.resource_types, value);
    }

    /// Whether the event passes both filters.
    pub fn matches(&self, event: &StreamEventEnvelope) -> (r: bool)
        ensures
            r == filters_match(*self, *event),
    {
        if self.resource_ids.len() > 0 && !strings_contain(&self.resource_ids, event.resource.id.as_str()) {
            return false;
        }
        if self.resource_types.len() > 0 && !strings_contain(
            &self.resource_types,
            event.resource.kind.as_str(),
        ) {
            return false;
        }
        true
    }
}

fn add_filter_value(set: &mut Vec<String>, value: &str)
    ensures
        views(final(set)@) == (if trim(value@).len() == 0 || views(old(set)@).contains(value@) {
            views(old(set)@)
        } else {
            views(old(set)@).push(value@)
        }),
{
    let t = trim_str(value);
    if t.unicode_len() == 0 || strings_contain(set, value) {
        return;
    }
    set.push(value.to_owned());
    assert(views(set@) =~= views(old(set)@).push(value@));
}

fn subscription_not_found(id: &str) -> (r: ApiError)
    ensures
        r.has_code(RpcErrorCode::NotFound),
        r.detail_text("subscriptionId"@) == Some(id@),
{
    let mut m = "subscription '".to_owned();
    m.append(id);
    m.append("' not found");
    ApiError::not_found(m).with_text("subscriptionId", id)
}

/// Checks the topics against the catalog and drops repeats, keeping the
/// order of first occurrence.
pub fn normalize_topics(topics: &Vec<String>) -> (r: Result<Vec<String>, ApiError>)
    ensures
        r is Ok <==> topics@.len() > 0 && forall|i: int|
            0 <= i < topics@.len() ==> stream_topics().contains(#[trigger] topics@[i]@),
        r matches Ok(v) ==> views(v@) == dedup(views(topics@)),
        r matches Err(e) ==> e.has_code(RpcErrorCode::InvalidParams),
{
    if topics.len() == 0 {
        return Err(ApiError::invalid_params("stream.subscribe requires at least one topic".to_owned()));
    }
    let mut accepted: Vec<String> = Vec::new();
    let mut i: usize = 0;
    while i < topics.len()
        invariant
            0 < topics@.len(),
            0 <= i <= topics@.len(),
            forall|j: int| 0 <= j < i ==> stream_topics().contains(#[trigger] topics@[j]@),
            views(accepted@) == dedup(views(topics@.subrange(0, i as int))),
        decreases topics@.len() - i,
    {
        let t = topics[i].as_str();
        if !is_known_topic(t) {
            let mut m = "unknown stream topic '".to_owned();
            m.append(t);
            m.append("'");
            return Err(ApiError::invalid_params(m));
        }
        let ghost pre = views(topics@.subrange(0, i as int));
        let ghost next = views(topics@.subrange(0, i + 1));
        assert(next.drop_last() =~= pre);
        assert(next.last() == t@);
        if !strings_contain(&accepted, t) {
            accepted.push(topics[i].clone());
            assert(views(accepted@) =~= dedup(pre).push(t@));
        }
        i = i + 1;
    }
    assert(topics@.subrange(0, i as int) =~= topics@);
    Ok(accepted)
}

/// The bus state.
pub struct StreamDomain {
    sequence: u64,
    subscription_counter: u64,
    history: Vec<StreamEventEnvelope>,
    subscriptions: Vec<SubscriptionRecord>,
}

impl StreamDomain {
    pub closed spec fn spec_sequence(&self) -> u64 {
        self.sequence
    }

    pub closed spec fn spec_counter(&self) -> u64 {
        self.subscription_counter
    }

    pub closed spec fn spec_history(&self) -> Seq<StreamEventEnvelope> {
        self.history@
    }

    pub closed spec fn spec_subs(&self) -> Seq<SubscriptionRecord> {
        self.subscriptions@
    }

    pub open spec fn sub_ids(&self) -> Seq<Seq<char>> {
        self.spec_subs().map_values(|s: SubscriptionRecord| s.id@)
    }

    pub open spec fn has_sub(&self, id: Seq<char>) -> bool {
        self.sub_ids().contains(id)
    }

    pub open spec fn sub_index(&self, id: Seq<char>) -> int {
        choose|k: int| 0 <= k < self.sub_ids().len() && self.sub_ids()[k] == id
    }

    /// The subscription with id `id` (meaningful when there is one).
    pub open spec fn sub(&self, id: Seq<char>) -> SubscriptionRecord {
        self.spec_subs()[self.sub_index(id)]
    }

    /// The bus invariant.
    pub open spec fn wf(&self) -> bool {
        let h = self.spec_history();
        let s = self.spec_subs();
        &&& h.len() <= HISTORY_LIMIT
        &&& increasing(h)
        &&& forall|i: int| 0 <= i < h.len() ==> (#[trigger] h[i]).sequence < self.spec_sequence()
        &&& forall|i: int| 0 <= i < h.len() ==> cursor_seq((#[trigger] h[i]).cursor@) == Some(h[i].sequence)
        &&& forall|i: int| 0 <= i < s.len() ==> cursor_seq((#[trigger] s[i]).cursor@) is Some
        &&& forall|i: int, j: int| 0 <= i < j < s.len() ==> (#[trigger] s[i]).id@ != (#[trigger] s[j]).id@
    }

    /// The history events that a subscription is owed, oldest first.
    pub open spec fn pending(&self, id: Seq<char>) -> Seq<StreamEventEnvelope> {
        let s = self.sub(id);
        self.spec_history().filter(replay_pred(s, cursor_seq(s.cursor@).unwrap()))
    }

    /// How many of the owed events a replay leaves out.
    pub open spec fn replay_dropped(&self, id: Seq<char>) -> nat {
        let n = self.pending(id).len();
        let limit = self.sub(id).replay_limit;
        if n > limit {
            (n - limit) as nat
        } else {
            0
        }
    }

    /// The events of a replay batch, oldest first.
    pub open spec fn replay_events(&self, id: Seq<char>) -> Seq<StreamEventEnvelope> {
        let p = self.pending(id);
        let d = self.replay_dropped(id);
        let s = self.sub(id);
        Seq::new(
            (p.len() - d) as nat,
            |i: int| marked(p[d + i], replay_mode_of(s), s.cursor, (p.len() - d) as u64),
        )
    }

    pub fn new() -> (r: StreamDomain)
        ensures
            r.wf(),
            r.spec_sequence() == 0,
            r.spec_counter() == 0,
            r.spec_history().len() == 0,
            r.spec_subs().len() == 0,
    {
        StreamDomain { sequence: 0, subscription_counter: 0, history: Vec::new(), subscriptions: Vec::new() }
    }

    fn find_sub(&self, id: &str) -> (r: Option<usize>)
        requires
            self.wf(),
        ensures
            r matches Some(k) ==> k < self.spec_subs().len() && k == self.sub_index(id@) && self.has_sub(id@)
                && self.spec_subs()[k as int].id@ == id@,
            r is None ==> !self.has_sub(id@),
    {
        let mut i: usize = 0;
        while i < self.subscriptions.len()
            invariant
                self.wf(),
                0 <= i <= self.subscriptions@.len(),
                forall|j: int| 0 <= j < i ==> self.subscriptions@[j].id@ != id@,
            decreases self.subscriptions@.len() - i,
        {
            if str_eq(self.subscriptions[i].id.as_str(), id) {
                proof {
                    assert(self.sub_ids()[i as int] == id@);
                    let k = self.sub_index(id@);
                    if k < i {
                    } else if k > i {
                        assert(self.spec_subs()[i as int].id@ != self.spec_subs()[k].id@);
                    }
                }
                return Some(i);
            }
            i = i + 1;
        }
        None
    }

    /// Whether a subscription with id `id` exists.
    pub fn has_subscription(&self, id: &str) -> (r: bool)
        requires
            self.wf(),
        ensures
            r == self.has_sub(id@),
    {
        self.find_sub(id).is_some()
    }

    /// The principal that owns the subscription.
    pub fn get_subscription_principal(&self, id: &str) -> (r: Option<String>)
        requires
            self.wf(),
        ensures
            r is None <==> !self.has_sub(id@),
            r matches Some(p) ==> p == self.sub(id@).principal,
    {
        match self.find_sub(id) {
            Some(k) => Some(self.subscriptions[k].principal.clone()),
            None => None,
        }
    }

    /// Whether the subscription exists and receives `event`.
    pub fn matches_subscription(&self, id: &str, event: &StreamEventEnvelope) -> (r: bool)
        requires
            self.wf(),
        ensures
            r == (self.has_sub(id@) && sub_matches(self.sub(id@), *event)),
    {
        match self.find_sub(id) {
            Some(k) => {
                let s = &self.subscriptions[k];
                strings_contain(&s.topics, event.topic.as_str()) && s.filters.matches(event)
            },
            None => false,
        }
    }

    /// Whether a stream connection may attach: the subscription id is given,
    /// the subscription exists, and it belongs to the authenticated principal.
    pub fn authorize_stream(&self, subscription_id: Option<&str>, principal: &str) -> (r: bool)
        requires
            self.wf(),
        ensures
            r == (subscription_id matches Some(id) && self.has_sub(id@) && self.sub(id@).principal@
                == principal@),
    {
        match subscription_id {
            None => false,
            Some(id) => match self.find_sub(id) {
                Some(k) => str_eq(self.subscriptions[k].principal.as_str(), principal),
                None => false,
            },
        }
    }

    proof fn lemma_sub_index(&self, k: int)
        requires
            self.wf(),
            0 <= k < self.spec_subs().len(),
        ensures
            self.has_sub(self.spec_subs()[k].id@),
            self.sub_index(self.spec_subs()[k].id@) == k,
    {
        let id = self.spec_subs()[k].id@;
        assert(self.sub_ids()[k] == id);
        let c = self.sub_index(id);
        if c < k {
            assert(self.spec_subs()[c].id@ != self.spec_subs()[k].id@);
        } else if c > k {
            assert(self.spec_subs()[k].id@ != self.spec_subs()[c].id@);
        }
    }

    /// The cursor that a subscription without one starts from.
    pub open spec fn latest_cursor(&self, now: u64) -> Seq<char> {
        if self.spec_history().len() > 0 {
            self.spec_history().last().cursor@
        } else {
            cursor_text(now, 0)
        }
    }

    fn latest_cursor_or_now(&self, now: u64) -> (r: String)
        requires
            self.wf(),
        ensures
            r@ == self.latest_cursor(now),
            cursor_seq(r@) is Some,
    {
        let n = self.history.len();
        if n > 0 {
            assert(cursor_seq(self.history@[n - 1].cursor@) is Some);
            self.history[n - 1].cursor.clone()
        } else {
            proof {
                lemma_cursor_round_trip(now, 0);
            }
            format_cursor(now, 0)
        }
    }


    /// Registers a subscription for `principal`.
    pub fn subscribe(&mut self, params: StreamSubscribeParams, principal: &str, now: u64) -> (r: Result<
        StreamSubscribeResult,
        ApiError,
    >)
        requires
            old(self).wf(),
        ensures
            final(self).wf(),
            final(self).spec_history() == old(self).spec_history(),
            final(self).spec_sequence() == old(self).spec_sequence(),
            r is Err ==> final(self).spec_subs() == old(self).spec_subs() && final(self).spec_counter()
                == old(self).spec_counter(),
            !topics_valid(params.topics@) ==> (r matches Err(e) && e.has_code(RpcErrorCode::InvalidParams)),
            topics_valid(params.topics@) && bad_cursor(params.cursor) ==> (r matches Err(e) && e.has_code(
                RpcErrorCode::InvalidParams,
            )),
            topics_valid(params.topics@) && !bad_cursor(params.cursor) && old(self).has_sub(
                subscription_id_text(now, next_sub_counter(old(self).spec_counter())),
            ) ==> (r matches Err(e) && e.has_code(RpcErrorCode::Conflict)),
            topics_valid(params.topics@) && !bad_cursor(params.cursor) && !old(self).has_sub(
                subscription_id_text(now, next_sub_counter(old(self).spec_counter())),
            ) ==> (r matches Ok(res) && views(res.accepted_topics@) == dedup(views(params.topics@))
                && res.cursor@ == (match params.cursor {
                Some(c) => c@,
                None => old(self).latest_cursor(now),
            }) && final(self).spec_counter() == next_sub_counter(old(self).spec_counter())
                && res.subscription_id@ == subscription_id_text(now, final(self).spec_counter())
                && final(self).spec_subs().len() == old(self).spec_subs().len() + 1 && final(self).spec_subs().drop_last()
                == old(self).spec_subs() && final(self).spec_subs().last().id@ == res.subscription_id@
                && views(final(self).spec_subs().last().topics@) == views(res.accepted_topics@)
                && final(self).spec_subs().last().filters.resource_ids@ == params.filters.resource_ids@
                && final(self).spec_subs().last().filters.resource_types@ == params.filters.resource_types@
                && final(self).spec_subs().last().cursor@ == res.cursor@ && final(self).spec_subs().last().replay_limit
                == (match params.replay_limit {
                Some(l) => l,
                None => DEFAULT_REPLAY_LIMIT,
            }) as usize && final(self).spec_subs().last().explicit_cursor == params.cursor is Some
                && final(self).spec_subs().last().principal@ == principal@ && final(self).has_sub(res.subscription_id@)
                && final(self).sub(res.subscription_id@) == final(self).spec_subs().last()),
    {
        let accepted = normalize_topics(&params.topics)?;
        let explicit = params.cursor.is_some();
        let cursor = match params.cursor {
            Some(c) => {
                let _ = cursor_sequence(c.as_str())?;
                c
            },
            None => self.latest_cursor_or_now(now),
        };
        let limit: u16 = match params.replay_limit {
            Some(l) => l,
            None => DEFAULT_REPLAY_LIMIT,
        };
        let next = if self.subscription_counter == u64::MAX {
            u64::MAX
        } else {
            self.subscription_counter + 1
        };
        let id = subscription_id(now, next);
        if self.find_sub(id.as_str()).is_some() {
            let e = ApiError::conflict("subscription id is already in use".to_owned());
            return Err(e.with_text("subscriptionId", id.as_str()));
        }
        self.subscription_counter = next;
        let rec = SubscriptionRecord {
            id: id.clone(),
            topics: clone_strings(&accepted),
            filters: params.filters,
            cursor: cursor.clone(),
            replay_limit: limit as usize,
            explicit_cursor: explicit,
            principal: principal.to_owned(),
        };
        let ghost mid = *self;
        let ghost grec = rec;
        assert(mid.spec_subs() == old(self).spec_subs());
        self.subscriptions.push(rec);
        proof {
            let s = self.spec_subs();
            assert(s.drop_last() =~= mid.spec_subs());
            assert forall|i: int, j: int| 0 <= i < j < s.len() implies (#[trigger] s[i]).id@ != (#[trigger] s[j]).id@ by {
                if j == s.len() - 1 {
                    assert(mid.sub_ids()[i] == mid.spec_subs()[i].id@);
                }
            }
            self.lemma_sub_index(s.len() - 1);
        }
        Ok(StreamSubscribeResult { subscription_id: id, accepted_topics: accepted, cursor })
    }

    /// Drops a subscription.
    pub fn unsubscribe(&mut self, id: &str) -> (r: Result<(), ApiError>)
        requires
            old(self).wf(),
        ensures
            final(self).wf(),
            final(self).spec_history() == old(self).spec_history(),
            final(self).spec_sequence() == old(self).spec_sequence(),
            final(self).spec_counter() == old(self).spec_counter(),
            !old(self).has_sub(id@) ==> (r matches Err(e) && e.has_code(RpcErrorCode::NotFound)
                && e.detail_text("subscriptionId"@) == Some(id@)
                && final(self).spec_subs() == old(self).spec_subs()),
            old(self).has_sub(id@) ==> r is Ok && final(self).spec_subs() == old(self).spec_subs().remove(
                old(self).sub_index(id@),
            ),
    {
        let k = match self.find_sub(id) {
            Some(k) => k,
            None => {
                return Err(subscription_not_found(id));
            },
        };
        let ghost before = self.subscriptions@;
        let _ = self.subscriptions.remove(k);
        proof {
            let s = self.subscriptions@;
            assert forall|i: int| 0 <= i < s.len() implies cursor_seq((#[trigger] s[i]).cursor@) is Some by {
                if i >= k {
                    assert(s[i] == before[i + 1]);
                }
            }
            assert forall|i: int, j: int| 0 <= i < j < s.len() implies (#[trigger] s[i]).id@
                != (#[trigger] s[j]).id@ by {
                if i >= k {
                    assert(s[i] == before[i + 1]);
                }
                if j >= k {
                    assert(s[j] == before[j + 1]);
                }
            }
        }
        Ok(())
    }

    /// Moves a subscription's checkpoint forward to `cursor`.
    pub fn ack(&mut self, id: &str, cursor: String) -> (r: Result<(), ApiError>)
        requires
            old(self).wf(),
        ensures
            final(self).wf(),
            final(self).spec_history() == old(self).spec_history(),
            final(self).spec_sequence() == old(self).spec_sequence(),
            final(self).spec_counter() == old(self).spec_counter(),
            r is Err ==> final(self).spec_subs() == old(self).spec_subs(),
            cursor_seq(cursor@) is None ==> (r matches Err(e) && e.has_code(RpcErrorCode::InvalidParams)),
            cursor_seq(cursor@) is Some && !old(self).has_sub(id@) ==> (r matches Err(e) && e.has_code(RpcErrorCode::NotFound)
                && e.detail_text("subscriptionId"@) == Some(id@)),
            cursor_seq(cursor@) is Some && old(self).has_sub(id@) && cursor_seq(cursor@).unwrap()
                < cursor_seq(old(self).sub(id@).cursor@).unwrap() ==> (r matches Err(e) && e.has_code(RpcErrorCode::PreconditionFailed)),
            cursor_seq(cursor@) is Some && old(self).has_sub(id@) && cursor_seq(cursor@).unwrap()
                >= cursor_seq(old(self).sub(id@).cursor@).unwrap() ==> r is Ok && final(self).spec_subs()
                == old(self).spec_subs().update(
                old(self).sub_index(id@),
                SubscriptionRecord { cursor: cursor, explicit_cursor: true, ..old(self).sub(id@) },
            ),
    {
        let seq = cursor_sequence(cursor.as_str())?;
        let k = match self.find_sub(id) {
            Some(k) => k,
            None => {
                return Err(subscription_not_found(id));
            },
        };
        let current = match cursor_sequence(self.subscriptions[k].cursor.as_str()) {
            Ok(c) => c,
            Err(e) => {
                return Err(e);
            },
        };
        if seq < current {
            let e = ApiError::precondition_failed(
                "stream.ack cursor is older than the subscription checkpoint".to_owned(),
            ).with_text("subscriptionId", id);
            let e = e.with_text("cursor", cursor.as_str());
            return Err(e.with_text("currentCursor", self.subscriptions[k].cursor.as_str()));
        }
        let ghost before = self.subscriptions@;
        let mut rec = self.subscriptions.remove(k);
        rec.cursor = cursor;
        rec.explicit_cursor = true;
        self.subscriptions.insert(k, rec);
        proof {
            let s = self.subscriptions@;
            assert(s =~= before.update(k as int, rec));
            assert forall|i: int, j: int| 0 <= i < j < s.len() implies (#[trigger] s[i]).id@
                != (#[trigger] s[j]).id@ by {
                assert(before[i].id@ != before[j].id@);
            }
        }
        Ok(())
    }

    fn next_event(
        &mut self,
        topic: &str,
        resource_type: &str,
        resource_id: &str,
        payload: EventPayload,
        now: u64,
    ) -> (r: StreamEventEnvelope)
        ensures
            final(self).spec_sequence() == (if old(self).spec_sequence() == u64::MAX {
                u64::MAX
            } else {
                (old(self).spec_sequence() + 1) as u64
            }),
            final(self).spec_history() == old(self).spec_history(),
            final(self).spec_subs() == old(self).spec_subs(),
            final(self).spec_counter() == old(self).spec_counter(),
            r.sequence == old(self).spec_sequence(),
            r.cursor@ == cursor_text(now, old(self).spec_sequence()),
            r.topic@ == topic@,
            r.resource.kind@ == resource_type@,
            r.resource.id@ == resource_id@,
            r.replay.mode == ReplayMode::Live,
            r.replay.requested_cursor is None,
            r.replay.batch is None,
            r.payload == payload,
            r.ts == now,
            r.api_version@ == "v1"@,
            r.stream@ == "events.v1"@,
    {
        let sequence = self.sequence;
        self.sequence = if self.sequence == u64::MAX {
            u64::MAX
        } else {
            self.sequence + 1
        };
        StreamEventEnvelope {
            api_version: "v1".to_owned(),
            stream: "events.v1".to_owned(),
            topic: topic.to_owned(),
            cursor: format_cursor(now, sequence),
            sequence,
            ts: now,
            resource: StreamResource { kind: resource_type.to_owned(), id: resource_id.to_owned() },
            replay: StreamReplay { mode: ReplayMode::Live, requested_cursor: None, batch: None },
            payload,
        }
    }

    /// Mints an event, appends it to the history (evicting the oldest when
    /// full) and hands it back for live delivery. Unknown topics are dropped,
    /// as is every event once the sequence space is spent.
    pub fn publish(
        &mut self,
        topic: &str,
        resource_type: &str,
        resource_id: &str,
        payload: EventPayload,
        now: u64,
    ) -> (r: Option<StreamEventEnvelope>)
        requires
            old(self).wf(),
        ensures
            final(self).wf(),
            final(self).spec_subs() == old(self).spec_subs(),
            final(self).spec_counter() == old(self).spec_counter(),
            !stream_topics().contains(topic@) || old(self).spec_sequence() == u64::MAX ==> r is None
                && final(self).spec_history() == old(self).spec_history() && final(self).spec_sequence()
                == old(self).spec_sequence(),
            stream_topics().contains(topic@) && old(self).spec_sequence() < u64::MAX ==> (r matches Some(e)
                && e.sequence == old(self).spec_sequence() && e.cursor@ == cursor_text(
                now,
                old(self).spec_sequence(),
            ) && e.topic@ == topic@ && e.resource.kind@ == resource_type@ && e.resource.id@ == resource_id@
                && e.replay.mode == ReplayMode::Live && e.replay.requested_cursor is None
                && e.replay.batch is None && e.payload == payload && e.ts == now
                && final(self).spec_sequence() == old(self).spec_sequence() + 1
                && final(self).spec_history() == (if old(self).spec_history().len() >= HISTORY_LIMIT {
                old(self).spec_history().drop_first()
            } else {
                old(self).spec_history()
            }).push(e)),
    {
        if !is_known_topic(topic) || self.sequence == u64::MAX {
            return None;
        }
        let event = self.next_event(topic, resource_type, resource_id, payload, now);
        let ghost before = self.history@;
        if self.history.len() >= HISTORY_LIMIT {
            let _ = self.history.remove(0);
            assert(self.history@ =~= before.drop_first());
        }
        let ghost kept = self.history@;
        self.history.push(event.copy());
        proof {
            lemma_cursor_round_trip(now, event.sequence);
            let h = self.history@;
            assert forall|i: int| 0 <= i < kept.len() implies (#[trigger] kept[i]).sequence < event.sequence
                && cursor_seq(kept[i].cursor@) == Some(kept[i].sequence) by {
                if before.len() >= HISTORY_LIMIT {
                    assert(kept[i] == before[i + 1]);
                } else {
                    assert(kept[i] == before[i]);
                }
            }
            assert forall|i: int, j: int| 0 <= i < j < h.len() implies (#[trigger] h[i]).sequence
                < (#[trigger] h[j]).sequence by {
                if j < h.len() - 1 {
                    if before.len() >= HISTORY_LIMIT {
                        assert(h[i] == before[i + 1]);
                        assert(h[j] == before[j + 1]);
                    } else {
                        assert(h[i] == before[i]);
                        assert(h[j] == before[j]);
                    }
                } else {
                    assert(h[i] == kept[i]);
                }
            }
            assert forall|i: int| 0 <= i < h.len() implies cursor_seq((#[trigger] h[i]).cursor@) == Some(
                h[i].sequence,
            ) by {
                if i < h.len() - 1 {
                    assert(h[i] == kept[i]);
                }
            }
        }
        Some(event)
    }

    /// A keepalive for a connection: a fresh sequence, kept out of history.
    pub fn keepalive_event(&mut self, subscription_id: &str, interval_ms: u64, now: u64) -> (r: StreamEventEnvelope)
        requires
            old(self).wf(),
        ensures
            final(self).wf(),
            final(self).spec_history() == old(self).spec_history(),
            final(self).spec_subs() == old(self).spec_subs(),
            r.sequence == old(self).spec_sequence(),
            r.topic@ == "stream.keepalive"@,
            r.resource.kind@ == "stream"@,
            r.resource.id@ == subscription_id@,
            r.replay.mode == ReplayMode::Live,
            r.payload == (EventPayload::Keepalive { interval_ms }),
    {
        self.next_event(
            "stream.keepalive",
            "stream",
            subscription_id,
            EventPayload::Keepalive { interval_ms },
            now,
        )
    }

    /// The notice that a subscriber missed `dropped` events.
    pub fn backpressure_event(&mut self, subscription_id: &str, dropped: u64, now: u64) -> (r: StreamEventEnvelope)
        requires
            old(self).wf(),
        ensures
            final(self).wf(),
            final(self).spec_history() == old(self).spec_history(),
            final(self).spec_subs() == old(self).spec_subs(),
            r.sequence == old(self).spec_sequence(),
            r.topic@ == "error.raised"@,
            r.resource.kind@ == "stream"@,
            r.resource.id@ == subscription_id@,
            r.replay.mode == ReplayMode::Live,
            r.payload matches EventPayload::Backpressure { dropped: d, message: m } && d == dropped
                && m@ == "subscription '"@ + subscription_id@ + "' dropped "@ + decimal(dropped as nat)
                + " event(s) due to backpressure"@,
    {
        let mut message = "subscription '".to_owned();
        message.append(subscription_id);
        message.append("' dropped ");
        push_decimal(&mut message, dropped);
        message.append(" event(s) due to backpressure");
        self.next_event(
            "error.raised",
            "stream",
            subscription_id,
            EventPayload::Backpressure { dropped, message },
            now,
        )
    }

    /// The replay batch of a subscription: owed history events past its
    /// cursor that pass its filters, at most `replay_limit` of the newest.
    pub fn replay_for_subscription(&self, id: &str) -> (r: Result<ReplayBatch, ApiError>)
        requires
            self.wf(),
        ensures
            !self.has_sub(id@) ==> (r matches Err(e) && e.has_code(RpcErrorCode::NotFound)
                && e.detail_text("subscriptionId"@) == Some(id@)),
            self.has_sub(id@) ==> (r matches Ok(b) && b.events@ == self.replay_events(id@)
                && b.dropped_count == self.replay_dropped(id@)),
            r matches Ok(b) ==> increasing(b.events@) && forall|i: int|
                0 <= i < b.events@.len() ==> (#[trigger] b.events@[i]).sequence > cursor_seq(
                    self.sub(id@).cursor@,
                ).unwrap(),
    {
        let k = match self.find_sub(id) {
            Some(k) => k,
            None => {
                return Err(subscription_not_found(id));
            },
        };
        let s = &self.subscriptions[k];
        let after = match cursor_sequence(s.cursor.as_str()) {
            Ok(c) => c,
            Err(e) => {
                return Err(e);
            },
        };
        let ghost pred = replay_pred(*s, after);
        let ghost h = self.history@;
        let mut owed: Vec<StreamEventEnvelope> = Vec::new();
        let mut i: usize = 0;
        let ghost mut last: int = -1;
        while i < self.history.len()
            invariant
                self.wf(),
                h == self.spec_history(),
                k < self.spec_subs().len(),
                *s == self.spec_subs()[k as int],
                pred == replay_pred(*s, after),
                0 <= i <= h.len(),
                owed@ == h.subrange(0, i as int).filter(pred),
                -1 <= last < i,
                owed@.len() > 0 ==> last >= 0 && owed@.last() == h[last],
                increasing(owed@),
                forall|a: int| 0 <= a < owed@.len() ==> (#[trigger] owed@[a]).sequence > after,
            decreases h.len() - i,
        {
            let e = &self.history[i];
            if e.sequence > after && strings_contain(&s.topics, e.topic.as_str()) && s.filters.matches(e) {
                proof {
                    if owed@.len() > 0 {
                        assert(h[last].sequence < h[i as int].sequence);
                    }
                }
                owed.push(e.copy());
                proof {
                    last = i as int;
                }
            }
            proof {
                reveal(Seq::filter);
                assert(h.subrange(0, i + 1).drop_last() =~= h.subrange(0, i as int));
            }
            i = i + 1;
        }
        assert(h.subrange(0, i as int) =~= h);
        let n = owed.len();
        let dropped: usize = if n > s.replay_limit {
            n - s.replay_limit
        } else {
            0
        };
        let mode = if s.explicit_cursor {
            ReplayMode::Resume
        } else {
            ReplayMode::Replay
        };
        let batch = (n - dropped) as u64;
        let mut events: Vec<StreamEventEnvelope> = Vec::new();
        let mut j: usize = dropped;
        while j < n
            invariant
                n == owed@.len(),
                dropped <= j <= n,
                events@ =~= Seq::new(
                    (j - dropped) as nat,
                    |a: int| marked(owed@[dropped + a], mode, s.cursor, batch),
                ),
            decreases n - j,
        {
            let mut e = owed[j].copy();
            e.replay = StreamReplay { mode, requested_cursor: Some(s.cursor.clone()), batch: Some(batch) };
            events.push(e);
            j = j + 1;
        }
        proof {
            self.lemma_sub_index(k as int);
            assert(self.sub(id@) == *s);
            assert forall|a: int, b: int| 0 <= a < b < events@.len() implies (#[trigger] events@[a]).sequence
                < (#[trigger] events@[b]).sequence by {
                assert(owed@[dropped + a].sequence < owed@[dropped + b].sequence);
            }
            assert forall|a: int| 0 <= a < events@.len() implies (#[trigger] events@[a]).sequence > after by {
                assert(owed@[dropped + a].sequence > after);
            }
        }
        Ok(ReplayBatch { events, dropped_count: dropped })
    }

    /// The first frames of a connection: the replay batch, preceded by one
    /// backpressure notice when the batch was cut.
    pub fn open_stream(&mut self, id: &str, now: u64) -> (r: Result<Vec<StreamEventEnvelope>, ApiError>)
        requires
            old(self).wf(),
        ensures
            final(self).wf(),
            final(self).spec_history() == old(self).spec_history(),
            final(self).spec_subs() == old(self).spec_subs(),
            !old(self).has_sub(id@) ==> (r matches Err(e) && e.has_code(RpcErrorCode::NotFound)
                && e.detail_text("subscriptionId"@) == Some(id@)),
            old(self).has_sub(id@) && old(self).replay_dropped(id@) == 0 ==> (r matches Ok(f) && f@
                == old(self).replay_events(id@)),
            old(self).has_sub(id@) && old(self).replay_dropped(id@) > 0 ==> (r matches Ok(f) && f@.len()
                == old(self).replay_events(id@).len() + 1 && f@[0].topic@ == "error.raised"@ && f@[0].resource.kind@
                == "stream"@ && f@[0].resource.id@ == id@ && f@[0].sequence == old(self).spec_sequence() && (
            f@[0].payload matches EventPayload::Backpressure { dropped: d, message: m } && d
                == old(self).replay_dropped(id@) && m@ == "subscription '"@ + id@ + "' dropped "@ + decimal(
                d as nat,
            ) + " event(s) due to backpressure"@) && f@.drop_first() == old(self).replay_events(id@)),
    {
        let batch = self.replay_for_subscription(id)?;
        if batch.dropped_count == 0 {
            return Ok(batch.events);
        }
        let notice = self.backpressure_event(id, batch.dropped_count as u64, now);
        let mut frames: Vec<StreamEventEnvelope> = Vec::new();
        frames.push(notice);
        let mut i: usize = 0;
        while i < batch.events.len()
            invariant
                0 <= i <= batch.events@.len(),
                frames@.len() == i + 1,
                frames@[0].topic@ == "error.raised"@,
                frames@[0].resource.kind@ == "stream"@,
                frames@[0].resource.id@ == id@,
                frames@[0].sequence == old(self).spec_sequence(),
                frames@[0].payload matches EventPayload::Backpressure { dropped: d, message: m } && d
                    == batch.dropped_count as u64 && m@ == "subscription '"@ + id@ + "' dropped "@ + decimal(
                    d as nat,
                ) + " event(s) due to backpressure"@,
                frames@.drop_first() =~= batch.events@.subrange(0, i as int),
            decreases batch.events@.len() - i,
        {
            frames.push(batch.events[i].copy());
            assert(frames@.drop_first() =~= batch.events@.subrange(0, i + 1));
            i = i + 1;
        }
        assert(batch.events@.subrange(0, i as int) =~= batch.events@);
        Ok(frames)
    }

    /// The decision of a stream connection's loop on one input.
    pub fn on_stream_input(&mut self, id: &str, input: StreamInput, now: u64) -> (r: StreamStep)
        requires
            old(self).wf(),
        ensures
            final(self).wf(),
            final(self).spec_history() == old(self).spec_history(),
            final(self).spec_subs() == old(self).spec_subs(),
            input is Tick ==> (r matches StreamStep::Send(e) && e.topic@ == "stream.keepalive"@
                && e.payload == (EventPayload::Keepalive { interval_ms: KEEPALIVE_INTERVAL_MS })),
            input matches StreamInput::Live(e) ==> (if old(self).has_sub(id@) && sub_matches(old(self).sub(id@), e) {
                r == StreamStep::Send(e)
            } else {
                r is Skip
            }),
            input matches StreamInput::Lagged(n) ==> (r matches StreamStep::Send(e) && e.topic@
                == "error.raised"@ && (e.payload matches EventPayload::Backpressure { dropped: d, .. } && d == n)),
            input matches StreamInput::Ping(p) ==> r == StreamStep::Pong(p),
            input is Closed ==> r is Stop,
            input is Other ==> r is Skip,
    {
        match input {
            StreamInput::Tick => StreamStep::Send(self.keepalive_event(id, KEEPALIVE_INTERVAL_MS, now)),
            StreamInput::Live(e) => {
                if self.matches_subscription(id, &e) {
                    StreamStep::Send(e)
                } else {
                    StreamStep::Skip
                }
            },
            StreamInput::Lagged(n) => StreamStep::Send(self.backpressure_event(id, n, now)),
            StreamInput::Ping(p) => StreamStep::Pong(p),
            StreamInput::Closed => StreamStep::Stop,
            StreamInput::Other => StreamStep::Skip,
        }
    }
}

/// The history is in strictly increasing sequence order, every cursor reads
/// back as its event's sequence, and the next event gets a larger sequence
/// than all of them.
pub proof fn lemma_history_ordered(d: StreamDomain)
    requires
        d.wf(),
    ensures
        increasing(d.spec_history()),
        d.spec_history().len() <= HISTORY_LIMIT,
        forall|i: int|
            0 <= i < d.spec_history().len() ==> (#[trigger] d.spec_history()[i]).sequence < d.spec_sequence()
                && cursor_seq(d.spec_history()[i].cursor@) == Some(d.spec_history()[i].sequence),
{
}

/// After an ack of cursor `c`, a reconnect replays only events past `c`.
pub proof fn lemma_replay_after_ack(d: StreamDomain, id: Seq<char>, c: String)
    requires
        d.wf(),
        d.has_sub(id),
        d.sub(id).cursor == c,
    ensures
        forall|i: int|
            0 <= i < d.replay_events(id).len() ==> (#[trigger] d.replay_events(id)[i]).sequence > cursor_seq(
                c@,
            ).unwrap(),
{
    let p = d.pending(id);
    let s = d.sub(id);
    assert forall|i: int| 0 <= i < d.replay_events(id).len() implies (#[trigger] d.replay_events(
        id,
    )[i]).sequence > cursor_seq(c@).unwrap() by {
        let k = d.replay_dropped(id) + i;
        d.spec_history().filter_lemma(replay_pred(s, cursor_seq(s.cursor@).unwrap()));
        assert(replay_pred(s, cursor_seq(s.cursor@).unwrap())(p[k]));
    }
}

/// A replay batch that was cut holds exactly `replay_limit` events, the
/// newest of those owed.
pub proof fn lemma_replay_cap(d: StreamDomain, id: Seq<char>)
    requires
        d.wf(),
        d.has_sub(id),
        d.pending(id).len() > d.sub(id).replay_limit,
    ensures
        d.replay_dropped(id) > 0,
        d.replay_events(id).len() == d.sub(id).replay_limit,
        forall|i: int|
            0 <= i < d.replay_events(id).len() ==> (#[trigger] d.replay_events(id)[i]).sequence == d.pending(
                id,
            )[d.pending(id).len() - d.sub(id).replay_limit + i].sequence,
{
}

} // verus!
