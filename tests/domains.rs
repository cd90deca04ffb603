use ralph_api::collections::GraphEdge;
use ralph_api::graph::{export_model, graph_from_hats, HatSpec};
use ralph_api::collections::{CollectionCreateParams, CollectionDomain, CollectionUpdateParams, DEFAULT_GRAPH};
use ralph_api::loop_domain::{find_worktree_path, WorktreeInfo};
use ralph_api::collections::{collection_id, CollectionSummary};
use ralph_api::presets::{file_preset, PresetDomain};
use ralph_api::config::ConfigDomain;
use ralph_api::errors::RpcErrorCode;
use ralph_api::loop_domain::{
    steering_text, LoopDomain, LoopListParams, LoopRecord, LoopRetryParams, LoopStopMergeParams,
    LoopTriggerMergeTaskParams, MergeState, PrimaryLoop, RegisteredLoop,
};
use ralph_api::planning::{ConversationEntry, PlanningDomain, PlanningRespondParams, PlanningSessionRecord};
use ralph_api::side_effects::{side_effect_for, EffectPayload, SideEffectFacts};
use ralph_api::stream_domain::{EventPayload, StreamDomain};
use ralph_api::task_domain::{TaskDomain, TaskStatus};

fn loops() -> LoopDomain {
    let mut d = LoopDomain::new("/ws".to_string(), 30_000, "ralph".to_string());
    d.enqueue("loop-a".to_string(), "first".to_string(), Some("/ws/a".to_string()));
    d.enqueue("loop-b".to_string(), "second".to_string(), None);
    d
}

fn no_facts() -> SideEffectFacts {
    SideEffectFacts {
        result_task_id: None,
        result_task_status: None,
        params_id: None,
        result_session_id: None,
        result_session_prompt: None,
        params_session_id: None,
        params_prompt_id: None,
        result_collection_id: None,
    }
}

#[test]
fn merge_goes_through_merging_to_merged() {
    let mut d = loops();
    d.merge(LoopStopMergeParams { id: "loop-a".to_string(), force: None }, "abc1234".to_string()).unwrap();
    let e = &d.queue()[0];
    assert_eq!(e.state, MergeState::Merged);
    assert_eq!(e.merge_commit.as_deref(), Some("abc1234"));
    let again = d.merge(LoopStopMergeParams { id: "loop-a".to_string(), force: Some(true) }, "x".to_string());
    assert_eq!(again.unwrap_err().code, RpcErrorCode::PreconditionFailed);
    let missing = d.merge(LoopStopMergeParams { id: "nope".to_string(), force: None }, "x".to_string());
    assert_eq!(missing.unwrap_err().code, RpcErrorCode::LoopNotFound);
}

#[test]
fn retry_needs_review_and_discard_is_idempotent() {
    let mut d = loops();
    let params = LoopRetryParams { id: "loop-b".to_string(), steering_input: None };
    assert_eq!(d.check_retry(&params).unwrap_err().code, RpcErrorCode::PreconditionFailed);
    d.merge(LoopStopMergeParams { id: "loop-b".to_string(), force: None }, "c".to_string()).unwrap();
    assert_eq!(d.discard_entry("loop-b").unwrap_err().code, RpcErrorCode::PreconditionFailed);
    d.discard_entry("loop-a").unwrap();
    assert_eq!(d.queue()[0].state, MergeState::Discarded);
    d.discard_entry("loop-a").unwrap();
    d.discard_entry("absent").unwrap();
    assert_eq!(steering_text(Some("  steer  ")).as_deref(), Some("steer"));
    assert_eq!(steering_text(Some("   ")), None);
}

#[test]
fn merge_outcome_records_review_or_commit() {
    let mut d = loops();
    assert_eq!(d.record_merge_outcome("loop-a", None).unwrap_err().code, RpcErrorCode::PreconditionFailed);
    assert!(d.needs_processing());
    d.record_processed(99);
    assert_eq!(d.status(true).last_processed_at, Some(99));
    assert_eq!(d.status(false).interval_ms, 30_000);
}

#[test]
fn list_unions_sources_without_duplicates() {
    let mut d = loops();
    d.merge(LoopStopMergeParams { id: "loop-b".to_string(), force: None }, "c0ffee".to_string()).unwrap();
    let registry = vec![RegisteredLoop {
        id: "loop-a".to_string(),
        prompt: "first".to_string(),
        worktree_path: Some("/ws/a".to_string()),
        alive: false,
    }];
    let primary = Some(PrimaryLoop { prompt: "main".to_string() });
    let live = d.list(LoopListParams { include_terminal: None }, primary.clone(), &registry);
    let ids: Vec<&str> = live.iter().map(|l| l.id.as_str()).collect();
    assert_eq!(ids, vec!["(primary)", "loop-a"]);
    assert_eq!(live[1].status, "crashed");
    let all = d.list(LoopListParams { include_terminal: Some(true) }, primary, &registry);
    assert_eq!(all.len(), 3);
    assert_eq!(all[2].status, "merged");
    assert_eq!(all[2].location, "c0ffee");
}

#[test]
fn trigger_merge_task_creates_a_queued_task() {
    let d = loops();
    let mut tasks = TaskDomain::new();
    let record = LoopRecord {
        id: "loop-a".to_string(),
        status: "queued".to_string(),
        location: "/ws/a".to_string(),
        prompt: Some("x".repeat(80)),
        merge_commit: None,
    };
    let res = d
        .trigger_merge_task(LoopTriggerMergeTaskParams { loop_id: "loop-a".to_string() }, Some(&record), &mut tasks, 1_000)
        .unwrap();
    assert!(res.success);
    assert_eq!(res.task_id, "merge-loop-a-1000");
    let task = tasks.get("merge-loop-a-1000").unwrap();
    assert_eq!(task.title, format!("Merge: {}", "x".repeat(50)));
    assert_eq!(task.priority, 1);
    assert_eq!(task.status, TaskStatus::Pending);
    assert!(task.merge_loop_prompt.unwrap().starts_with("Merge worktree loop 'loop-a' into main branch."));
    let primary = LoopRecord { location: "(in-place)".to_string(), ..record };
    let err = d
        .trigger_merge_task(LoopTriggerMergeTaskParams { loop_id: "(primary)".to_string() }, Some(&primary), &mut tasks, 2)
        .unwrap_err();
    assert_eq!(err.code, RpcErrorCode::InvalidParams);
    let err = d.trigger_merge_task(LoopTriggerMergeTaskParams { loop_id: "zz".to_string() }, None, &mut tasks, 2).unwrap_err();
    assert_eq!(err.code, RpcErrorCode::LoopNotFound);
}

#[test]
fn side_effects_follow_the_method_table() {
    let mut f = no_facts();
    f.result_task_id = Some("t2".to_string());
    f.result_task_status = Some("open".to_string());
    let e = side_effect_for("task.create", &f).unwrap();
    assert_eq!(e.topic, "task.status.changed");
    assert_eq!(e.resource_id, "t2");
    assert!(matches!(e.payload, EffectPayload::TaskStatus { ref from, ref to } if from == "none" && to == "open"));
    let e = side_effect_for("task.close", &f).unwrap();
    assert!(matches!(e.payload, EffectPayload::TaskStatus { ref from, .. } if from == "unknown"));
    assert!(side_effect_for("stream.subscribe", &f).is_none());
    assert!(side_effect_for("task.list", &f).is_none());
    let mut g = no_facts();
    g.params_id = Some("c1".to_string());
    let e = side_effect_for("collection.delete", &g).unwrap();
    assert!(matches!(e.payload, EffectPayload::CollectionUpdated { ref action, .. } if action == "deleted"));
    let e = side_effect_for("loop.retry", &g).unwrap();
    assert!(matches!(e.payload, EffectPayload::LoopStage { ref stage, .. } if stage == "queued"));
    let e = side_effect_for("config.update", &no_facts()).unwrap();
    assert_eq!(e.resource_id, "ralph.yml");
}

#[test]
fn side_effects_are_published_on_the_bus() {
    let mut bus = StreamDomain::new();
    let mut f = no_facts();
    f.result_session_id = Some("sess1".to_string());
    f.result_session_prompt = Some("plan it".to_string());
    let ev = bus.publish_rpc_side_effect("planning.start", &f, 5).unwrap();
    assert_eq!(ev.topic, "planning.prompt.issued");
    assert!(matches!(ev.payload, EventPayload::Effect(EffectPayload::PromptIssued { .. })));
    assert!(bus.publish_rpc_side_effect("planning.list", &f, 6).is_none());
}

fn record(status: &str) -> PlanningSessionRecord {
    PlanningSessionRecord {
        id: "sess1".to_string(),
        prompt: "Build a thing".to_string(),
        status: status.to_string(),
        created_at: "2024-01-01T00:00:00Z".to_string(),
        updated_at: "2024-01-02T00:00:00Z".to_string(),
        iterations: 3,
    }
}

#[test]
fn planning_detail_respond_and_resume() {
    let d = PlanningDomain::new("/ws");
    assert_eq!(d.session_dir("sess1"), "/ws/.ralph/planning-sessions/sess1");
    assert_eq!(d.metadata_path("sess1"), "/ws/.ralph/planning-sessions/sess1/session.json");
    let conversation = vec![
        ConversationEntry { entry_type: "user_prompt".to_string(), id: "p1".to_string(), text: "q".to_string(), ts: "t".to_string() },
        ConversationEntry { entry_type: "assistant".to_string(), id: "p2".to_string(), text: "a".to_string(), ts: "t".to_string() },
    ];
    let detail = d.get("sess1", Some(record("completed")), &conversation, vec!["plan.md".to_string()]).unwrap();
    assert_eq!(detail.completed_at.as_deref(), Some("2024-01-02T00:00:00Z"));
    assert_eq!(detail.conversation[0].entry_type, "prompt");
    assert_eq!(detail.conversation[1].entry_type, "response");
    assert_eq!(detail.message_count, 2);
    assert_eq!(d.get("sess1", None, &conversation, vec![]).unwrap_err().code, RpcErrorCode::PlanningSessionNotFound);
    assert_eq!(d.get("../x", None, &conversation, vec![]).unwrap_err().code, RpcErrorCode::InvalidParams);
    let paused = d.get("sess1", Some(record("waiting_for_input")), &vec![], vec![]).unwrap();
    assert_eq!(paused.status, "paused");
    let (rec, entry) = d
        .respond(
            PlanningRespondParams { session_id: "sess1".to_string(), prompt_id: "p1".to_string(), response: "yes".to_string() },
            Some(record("waiting_for_input")),
            "now".to_string(),
        )
        .unwrap();
    assert_eq!(rec.status, "active");
    assert_eq!(entry.entry_type, "user_response");
    assert_eq!(d.resume("sess1", Some(record("completed")), "later".to_string()).unwrap().updated_at, "later");
}

#[test]
fn config_paths() {
    let c = ConfigDomain::new("/ws");
    assert_eq!(c.config_path(), "/ws/ralph.yml");
    assert_eq!(c.temp_path(42, 7), "/ws/ralph.yml.tmp-42-7");
}

#[test]
fn presets_are_ordered_by_class_then_name_then_id() {
    let d = PresetDomain::new("/ws");
    assert_eq!(d.builtin_dir(), "/ws/presets");
    assert_eq!(d.hats_dir(), "/ws/.ralph/hats");
    let builtin = vec![file_preset("builtin", "zeta", None, None), file_preset("builtin", "alpha", None, None)];
    let directory = vec![file_preset("directory", "mid", None, Some("/ws/.ralph/hats/mid.yml".to_string()))];
    let collections = vec![
        CollectionSummary {
            id: "collection-2".to_string(),
            name: "same".to_string(),
            description: None,
            created_at: "t".to_string(),
            updated_at: "t".to_string(),
        },
        CollectionSummary {
            id: "collection-1".to_string(),
            name: "same".to_string(),
            description: Some("d".to_string()),
            created_at: "t".to_string(),
            updated_at: "t".to_string(),
        },
    ];
    let all = d.list(&builtin, &directory, &collections);
    let ids: Vec<&str> = all.iter().map(|p| p.id.as_str()).collect();
    assert_eq!(ids, vec!["builtin:alpha", "builtin:zeta", "directory:mid", "collection-1", "collection-2"]);
    assert_eq!(all[4].source, "collection");
    assert_eq!(collection_id(1_000, 10), "collection-1000-000a");
}

#[test]
fn discard_target_prefers_registry_then_queue_then_worktree() {
    let d = loops();
    let registry = vec![RegisteredLoop {
        id: "loop-r".to_string(),
        prompt: "p".to_string(),
        worktree_path: Some("/ws/r".to_string()),
        alive: true,
    }];
    let r = d.resolve_discard_target("loop-r", &registry, None).unwrap();
    assert_eq!(r.worktree_path.as_deref(), Some("/ws/r"));
    let worktrees = vec![
        WorktreeInfo { branch: "main".to_string(), path: "/ws".to_string() },
        WorktreeInfo { branch: "ralph/loop-a".to_string(), path: "/ws/.worktrees/loop-a".to_string() },
    ];
    let w = find_worktree_path(&worktrees, "loop-a");
    assert_eq!(w.as_deref(), Some("/ws/.worktrees/loop-a"));
    let q = d.resolve_discard_target("loop-a", &registry, w).unwrap();
    assert_eq!(q.id, "loop-a");
    assert_eq!(q.worktree_path.as_deref(), Some("/ws/.worktrees/loop-a"));
    assert_eq!(d.resolve_discard_target("ghost", &registry, None).unwrap_err().code, RpcErrorCode::LoopNotFound);
}

#[test]
fn collections_crud_and_ordering() {
    let mut d = CollectionDomain::new();
    let a = d.create(CollectionCreateParams { name: "zeta".to_string(), description: None, graph: None }, "t1".to_string(), 5);
    assert_eq!(a.id, "collection-5-0001");
    assert_eq!(a.graph, DEFAULT_GRAPH);
    let b = d.create(
        CollectionCreateParams { name: "alpha".to_string(), description: Some("d".to_string()), graph: Some("{}".to_string()) },
        "t2".to_string(),
        6,
    );
    let names: Vec<String> = d.list().into_iter().map(|s| s.name).collect();
    assert_eq!(names, vec!["alpha", "zeta"]);
    let u = d
        .update(
            CollectionUpdateParams { id: b.id.clone(), name: Some("beta".to_string()), description: None, graph: None },
            "t3".to_string(),
        )
        .unwrap();
    assert_eq!(u.name, "beta");
    assert_eq!(u.description.as_deref(), Some("d"));
    assert_eq!(u.updated_at, "t3");
    d.delete(&a.id).unwrap();
    assert_eq!(d.get(&a.id).unwrap_err().code, RpcErrorCode::CollectionNotFound);
    assert_eq!(d.delete(&a.id).unwrap_err().code, RpcErrorCode::CollectionNotFound);
}

fn hat(key: &str, triggers: &[&str], publishes: &[&str]) -> HatSpec {
    HatSpec {
        key: key.to_string(),
        name: None,
        description: None,
        triggers: triggers.iter().map(|s| s.to_string()).collect(),
        publishes: publishes.iter().map(|s| s.to_string()).collect(),
        instructions: None,
    }
}

#[test]
fn graph_from_hats_orders_nodes_and_derives_edges() {
    let hats = vec![
        hat("writer", &["build.done"], &["write.done"]),
        hat("builder", &["task.start", "write.done"], &["build.done", "build.done"]),
        hat("echo", &["build.done"], &["build.done"]),
    ];
    let g = graph_from_hats(&hats);
    let keys: Vec<&str> = g.nodes.iter().map(|n| n.id.as_str()).collect();
    assert_eq!(keys, vec!["builder", "echo", "writer"]);
    assert_eq!(g.nodes[2].position.y, 450);
    assert_eq!(g.nodes[0].position.x, 250);
    assert_eq!(g.nodes[0].data.name, "builder");
    assert_eq!(g.nodes[0].data.description, "");
    let edges: Vec<(String, String, String, String)> = g
        .edges
        .iter()
        .map(|e| (e.id.clone(), e.source.clone(), e.target.clone(), e.label.clone().unwrap()))
        .collect();
    assert_eq!(
        edges,
        vec![
            ("edge-0".to_string(), "builder".to_string(), "echo".to_string(), "build.done".to_string()),
            ("edge-1".to_string(), "builder".to_string(), "writer".to_string(), "build.done".to_string()),
            ("edge-2".to_string(), "echo".to_string(), "writer".to_string(), "build.done".to_string()),
            ("edge-3".to_string(), "writer".to_string(), "builder".to_string(), "write.done".to_string()),
        ]
    );
}

#[test]
fn export_model_collects_events_per_hat() {
    let hats = vec![hat("b", &["task.start"], &["x"]), hat("a", &["x"], &[])];
    let mut g = graph_from_hats(&hats);
    g.edges.push(GraphEdge {
        id: "manual".to_string(),
        source: "a".to_string(),
        target: "b".to_string(),
        source_handle: None,
        target_handle: None,
        label: Some("  ".to_string()),
    });
    let m = export_model(&g);
    assert_eq!(m.max_iterations, 50);
    assert_eq!(m.hats[0].key, "a");
    assert_eq!(m.hats[0].publishes, vec!["a_to_b"]);
    assert_eq!(m.hats[0].default_publishes.as_deref(), Some("a_to_b"));
    assert_eq!(m.hats[1].triggers, vec!["a_to_b", "task.start"]);
    assert_eq!(m.events, vec!["a_to_b", "x"]);
}

#[test]
fn delete_target_refuses_path_traversal() {
    let d = PlanningDomain::new("/ws");
    let e = d.delete_target("../../victim-dir").unwrap_err();
    assert_eq!(e.code, RpcErrorCode::InvalidParams);
    assert_eq!(d.delete_target("sess1").unwrap(), "/ws/.ralph/planning-sessions/sess1");
}
