//! The events that a successful RPC call publishes, by method. The caller
//! reads the few facts the mapping needs out of the call's parameters and
//! result.
use vstd::prelude::*;

use crate::protocol::stream_topics;
use crate::stream_domain::{EventPayload, StreamDomain, StreamEventEnvelope};
use crate::text::str_eq;

verus! {

/// What the mapping reads from a call's parameters and result.
#[derive(Debug, Clone)]
pub struct SideEffectFacts {
    /// `result.task.id`
    pub result_task_id: Option<String>,
    /// `result.task.status`
    pub result_task_status: Option<String>,
    /// `params.id`
    pub params_id: Option<String>,
    /// `result.session.id`
    pub result_session_id: Option<String>,
    /// `result.session.prompt`
    pub result_session_prompt: Option<String>,
    /// `params.sessionId`
    pub params_session_id: Option<String>,
    /// `params.promptId`
    pub params_prompt_id: Option<String>,
    /// `result.collection.id`
    pub result_collection_id: Option<String>,
}

/// The payload of a side-effect event.
#[derive(Debug, Clone)]
pub enum EffectPayload {
    /// `{from, to}` of a task status change.
    TaskStatus { from: String, to: String },
    /// `{loopId, stage}` of merge progress.
    LoopStage { loop_id: String, stage: String },
    /// `{sessionId, promptId: "initial", prompt}`.
    PromptIssued { session_id: String, prompt: String },
    /// `{sessionId, promptId}`.
    ResponseRecorded { session_id: String, prompt_id: String },
    /// `{path: "ralph.yml", updatedBy: "rpc-v1"}`.
    ConfigUpdated,
    /// `{collectionId, action}`.
    CollectionUpdated { collection_id: String, action: String },
}

impl EffectPayload {
    pub fn copy(&self) -> (r: EffectPayload)
        ensures
            r == *self,
    {
        match self {
            EffectPayload::TaskStatus { from, to } => EffectPayload::TaskStatus { from: from.clone(), to: to.clone() },
            EffectPayload::LoopStage { loop_id, stage } => EffectPayload::LoopStage {
                loop_id: loop_id.clone(),
                stage: stage.clone(),
            },
            EffectPayload::PromptIssued { session_id, prompt } => EffectPayload::PromptIssued {
                session_id: session_id.clone(),
                prompt: prompt.clone(),
            },
            EffectPayload::ResponseRecorded { session_id, prompt_id } => EffectPayload::ResponseRecorded {
                session_id: session_id.clone(),
                prompt_id: prompt_id.clone(),
            },
            EffectPayload::ConfigUpdated => EffectPayload::ConfigUpdated,
            EffectPayload::CollectionUpdated { collection_id, action } => EffectPayload::CollectionUpdated {
                collection_id: collection_id.clone(),
                action: action.clone(),
            },
        }
    }
}

/// A side-effect event before it is minted.
#[derive(Debug, Clone)]
pub struct SideEffect {
    pub topic: String,
    pub resource_type: String,
    pub resource_id: String,
    pub payload: EffectPayload,
}

/// The characters of a payload.
pub enum EffectView {
    TaskStatus { from: Seq<char>, to: Seq<char> },
    LoopStage { loop_id: Seq<char>, stage: Seq<char> },
    PromptIssued { session_id: Seq<char>, prompt: Seq<char> },
    ResponseRecorded { session_id: Seq<char>, prompt_id: Seq<char> },
    ConfigUpdated,
    CollectionUpdated { collection_id: Seq<char>, action: Seq<char> },
}

pub open spec fn payload_view(p: EffectPayload) -> EffectView {
    match p {
        EffectPayload::TaskStatus { from, to } => EffectView::TaskStatus { from: from@, to: to@ },
        EffectPayload::LoopStage { loop_id, stage } => EffectView::LoopStage { loop_id: loop_id@, stage: stage@ },
        EffectPayload::PromptIssued { session_id, prompt } => EffectView::PromptIssued {
            session_id: session_id@,
            prompt: prompt@,
        },
        EffectPayload::ResponseRecorded { session_id, prompt_id } => EffectView::ResponseRecorded {
            session_id: session_id@,
            prompt_id: prompt_id@,
        },
        EffectPayload::ConfigUpdated => EffectView::ConfigUpdated,
        EffectPayload::CollectionUpdated { collection_id, action } => EffectView::CollectionUpdated {
            collection_id: collection_id@,
            action: action@,
        },
    }
}

pub open spec fn effect_view(e: Option<SideEffect>) -> Option<(Seq<char>, Seq<char>, Seq<char>, EffectView)> {
    match e {
        Some(x) => Some((x.topic@, x.resource_type@, x.resource_id@, payload_view(x.payload))),
        None => None,
    }
}

pub open spec fn task_effect(f: SideEffectFacts, from: Seq<char>) -> Option<(Seq<char>, Seq<char>, Seq<char>, EffectView)> {
    match (f.result_task_id, f.result_task_status) {
        (Some(i), Some(s)) => Some(("task.status.changed"@, "task"@, i@, EffectView::TaskStatus { from, to: s@ })),
        _ => None,
    }
}

pub open spec fn loop_effect(f: SideEffectFacts, stage: Seq<char>) -> Option<(Seq<char>, Seq<char>, Seq<char>, EffectView)> {
    match f.params_id {
        Some(i) => Some(("loop.merge.progress"@, "loop"@, i@, EffectView::LoopStage { loop_id: i@, stage })),
        None => None,
    }
}

pub open spec fn collection_effect(id: Option<String>, action: Seq<char>) -> Option<(Seq<char>, Seq<char>, Seq<char>, EffectView)> {
    match id {
        Some(i) => Some(
            ("collection.updated"@, "collection"@, i@, EffectView::CollectionUpdated { collection_id: i@, action }),
        ),
        None => None,
    }
}

/// The event a successful call of `method` publishes, if any.
pub open spec fn expected_effect(method: Seq<char>, f: SideEffectFacts) -> Option<(Seq<char>, Seq<char>, Seq<char>, EffectView)> {
    if method == "task.create"@ {
        task_effect(f, "none"@)
    } else if method == "task.update"@ || method == "task.close"@ || method == "task.cancel"@ || method
        == "task.retry"@ || method == "task.run"@ {
        task_effect(f, "unknown"@)
    } else if method == "loop.merge"@ {
        loop_effect(f, "merged"@)
    } else if method == "loop.retry"@ {
        loop_effect(f, "queued"@)
    } else if method == "loop.discard"@ {
        loop_effect(f, "discarded"@)
    } else if method == "planning.start"@ {
        match (f.result_session_id, f.result_session_prompt) {
            (Some(s), Some(p)) => Some(
                ("planning.prompt.issued"@, "planning"@, s@, EffectView::PromptIssued { session_id: s@, prompt: p@ }),
            ),
            _ => None,
        }
    } else if method == "planning.respond"@ {
        match (f.params_session_id, f.params_prompt_id) {
            (Some(s), Some(p)) => Some(
                (
                    "planning.response.recorded"@,
                    "planning"@,
                    s@,
                    EffectView::ResponseRecorded { session_id: s@, prompt_id: p@ },
                ),
            ),
            _ => None,
        }
    } else if method == "config.update"@ {
        Some(("config.updated"@, "config"@, "ralph.yml"@, EffectView::ConfigUpdated))
    } else if method == "collection.create"@ {
        collection_effect(f.result_collection_id, "created"@)
    } else if method == "collection.update"@ {
        collection_effect(f.result_collection_id, "updated"@)
    } else if method == "collection.delete"@ {
        collection_effect(f.params_id, "deleted"@)
    } else if method == "collection.import"@ {
        collection_effect(f.result_collection_id, "imported"@)
    } else {
        None
    }
}

fn task_side_effect(f: &SideEffectFacts, from: &str) -> (r: Option<SideEffect>)
    ensures
        effect_view(r) == task_effect(*f, from@),
{
    match (&f.result_task_id, &f.result_task_status) {
        (Some(i), Some(s)) => Some(
            SideEffect {
                topic: "task.status.changed".to_owned(),
                resource_type: "task".to_owned(),
                resource_id: i.clone(),
                payload: EffectPayload::TaskStatus { from: from.to_owned(), to: s.clone() },
            },
        ),
        _ => None,
    }
}

fn loop_side_effect(f: &SideEffectFacts, stage: &str) -> (r: Option<SideEffect>)
    ensures
        effect_view(r) == loop_effect(*f, stage@),
{
    match &f.params_id {
        Some(i) => Some(
            SideEffect {
                topic: "loop.merge.progress".to_owned(),
                resource_type: "loop".to_owned(),
                resource_id: i.clone(),
                payload: EffectPayload::LoopStage { loop_id: i.clone(), stage: stage.to_owned() },
            },
        ),
        None => None,
    }
}

fn collection_side_effect(id: &Option<String>, action: &str) -> (r: Option<SideEffect>)
    ensures
        effect_view(r) == collection_effect(*id, action@),
{
    match id {
        Some(i) => Some(
            SideEffect {
                topic: "collection.updated".to_owned(),
                resource_type: "collection".to_owned(),
                resource_id: i.clone(),
                payload: EffectPayload::CollectionUpdated { collection_id: i.clone(), action: action.to_owned() },
            },
        ),
        None => None,
    }
}

/// The event a successful call of `method` publishes, if any; `stream.*`
/// methods and reads publish nothing.
pub fn side_effect_for(method: &str, f: &SideEffectFacts) -> (r: Option<SideEffect>)
    ensures
        effect_view(r) == expected_effect(method@, *f),
{
    if str_eq(method, "task.create") {
        task_side_effect(f, "none")
    } else if str_eq(method, "task.update") || str_eq(method, "task.close") || str_eq(method, "task.cancel")
        || str_eq(method, "task.retry") || str_eq(method, "task.run") {
        task_side_effect(f, "unknown")
    } else if str_eq(method, "loop.merge") {
        loop_side_effect(f, "merged")
    } else if str_eq(method, "loop.retry") {
        loop_side_effect(f, "queued")
    } else if str_eq(method, "loop.discard") {
        loop_side_effect(f, "discarded")
    } else if str_eq(method, "planning.start") {
        match (&f.result_session_id, &f.result_session_prompt) {
            (Some(s), Some(p)) => Some(
                SideEffect {
                    topic: "planning.prompt.issued".to_owned(),
                    resource_type: "planning".to_owned(),
                    resource_id: s.clone(),
                    payload: EffectPayload::PromptIssued { session_id: s.clone(), prompt: p.clone() },
                },
            ),
            _ => None,
        }
    } else if str_eq(method, "planning.respond") {
        match (&f.params_session_id, &f.params_prompt_id) {
            (Some(s), Some(p)) => Some(
                SideEffect {
                    topic: "planning.response.recorded".to_owned(),
                    resource_type: "planning".to_owned(),
                    resource_id: s.clone(),
                    payload: EffectPayload::ResponseRecorded { session_id: s.clone(), prompt_id: p.clone() },
                },
            ),
            _ => None,
        }
    } else if str_eq(method, "config.update") {
        Some(
            SideEffect {
                topic: "config.updated".to_owned(),
                resource_type: "config".to_owned(),
                resource_id: "ralph.yml".to_owned(),
                payload: EffectPayload::ConfigUpdated,
            },
        )
    } else if str_eq(method, "collection.create") {
        collection_side_effect(&f.result_collection_id, "created")
    } else if str_eq(method, "collection.update") {
        collection_side_effect(&f.result_collection_id, "updated")
    } else if str_eq(method, "collection.delete") {
        collection_side_effect(&f.params_id, "deleted")
    } else if str_eq(method, "collection.import") {
        collection_side_effect(&f.result_collection_id, "imported")
    } else {
        None
    }
}

/// Every side effect goes to a topic of the catalog.
pub proof fn lemma_effect_topic_known(method: Seq<char>, f: SideEffectFacts)
    requires
        expected_effect(method, f) is Some,
    ensures
        stream_topics().contains(expected_effect(method, f).unwrap().0),
{
    let t = expected_effect(method, f).unwrap().0;
    let s = stream_topics();
    assert(s[3] == "task.status.changed"@);
    assert(s[5] == "loop.merge.progress"@);
    assert(s[6] == "planning.prompt.issued"@);
    assert(s[7] == "planning.response.recorded"@);
    assert(s[9] == "config.updated"@);
    assert(s[10] == "collection.updated"@);
}

impl StreamDomain {
    /// Publishes the side-effect event of a successful call, if it has one.
    pub fn publish_rpc_side_effect(&mut self, method: &str, facts: &SideEffectFacts, now: u64) -> (r: Option<
        StreamEventEnvelope,
    >)
        requires
            old(self).wf(),
        ensures
            final(self).wf(),
            final(self).spec_subs() == old(self).spec_subs(),
            expected_effect(method@, *facts) is None ==> r is None && final(self).spec_history() == old(self).spec_history(),
            expected_effect(method@, *facts) is Some && old(self).spec_sequence() < u64::MAX ==> r is Some,
            r is None ==> final(self).spec_history() == old(self).spec_history() && final(self).spec_sequence()
                == old(self).spec_sequence(),
            r matches Some(e) ==> e.replay.mode == crate::stream_domain::ReplayMode::Live && e.replay.requested_cursor
                is None && e.replay.batch is None && e.ts == now && e.cursor@ == crate::cursor::cursor_text(
                now,
                old(self).spec_sequence(),
            ),
            r matches Some(e) ==> e.sequence == old(self).spec_sequence() && final(self).spec_sequence()
                == old(self).spec_sequence() + 1 && final(self).spec_history() == (if old(self).spec_history().len()
                >= crate::stream_domain::HISTORY_LIMIT {
                old(self).spec_history().drop_first()
            } else {
                old(self).spec_history()
            }).push(e),
            r matches Some(e) ==> expected_effect(method@, *facts) matches Some(x) && e.topic@ == x.0
                && e.resource.kind@ == x.1 && e.resource.id@ == x.2 && (e.payload matches EventPayload::Effect(p)
                && payload_view(p) == x.3),
    {
        let effect = side_effect_for(method, facts);
        proof {
            if expected_effect(method@, *facts) is Some {
                lemma_effect_topic_known(method@, *facts);
            }
        }
        match effect {
            Some(effect) => self.publish(
                effect.topic.as_str(),
                effect.resource_type.as_str(),
                effect.resource_id.as_str(),
                EventPayload::Effect(effect.payload),
                now,
            ),
            None => None,
        }
    }
}

} // verus!
