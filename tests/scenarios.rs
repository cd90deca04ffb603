use ralph_api::auth::{token_from_header, Authenticator, TokenAuthenticator};
use ralph_api::cursor::{cursor_sequence, format_cursor};
use ralph_api::errors::{status_for_code, ApiError, RpcErrorCode};
use ralph_api::idempotency::{IdempotencyCheck, InMemoryIdempotencyStore, StoredResponse};
use ralph_api::pipeline::{admit_request, idempotency_key_for, idempotency_step, method_family, IdempotencyStep, MethodFamily};
use ralph_api::planning::{
    check_artifact_entry, check_artifact_request, generate_title, is_listed_artifact_name, to_frontend_status,
    validate_session_id, EntryKind,
};
use ralph_api::protocol::{is_known_method, is_mutating_method, is_known_topic};
use ralph_api::stream_domain::{
    normalize_topics, EventPayload, ReplayMode, StreamDomain, StreamInput, StreamStep, StreamSubscribeParams,
    SubscriptionFilters,
};
use ralph_api::task_domain::{TaskCreateParams, TaskDomain, TaskListParams, TaskStatus, TaskUpdateInput};
use ralph_api::text::trim_str;

fn create_params(id: &str, status: Option<TaskStatus>, blocked_by: Option<&str>, auto: Option<bool>) -> TaskCreateParams {
    TaskCreateParams {
        id: id.to_string(),
        title: format!("task {id}"),
        status,
        priority: None,
        blocked_by: blocked_by.map(|b| b.to_string()),
        auto_execute: auto,
        merge_loop_prompt: None,
    }
}

fn ids(tasks: &[ralph_api::task_domain::TaskRecord]) -> Vec<String> {
    tasks.iter().map(|t| t.id.clone()).collect()
}

#[test]
fn unknown_method_is_method_not_found_with_404() {
    let err = admit_request(true, Some("r1"), Some("system.not_real"), true).unwrap_err();
    assert_eq!(err.code, RpcErrorCode::MethodNotFound);
    assert_eq!(err.status, 404);
    assert_eq!(err.code.as_str(), "METHOD_NOT_FOUND");
    assert_eq!(err.request_id, "r1");
    assert_eq!(err.method.as_deref(), Some("system.not_real"));
}

#[test]
fn non_object_body_is_invalid_request() {
    let err = admit_request(false, Some("r2"), Some("task.list"), true).unwrap_err();
    assert_eq!(err.code, RpcErrorCode::InvalidRequest);
    assert_eq!(err.status, 400);
    assert_eq!(err.request_id, "r2");
    let err = admit_request(false, Some(""), None, true).unwrap_err();
    assert_eq!(err.request_id, "unknown");
}

#[test]
fn schema_violation_is_invalid_params() {
    let err = admit_request(true, Some("r3"), Some("task.create"), false).unwrap_err();
    assert_eq!(err.code, RpcErrorCode::InvalidParams);
    assert_eq!(err.status, 400);
    assert_eq!(admit_request(true, Some("r3"), Some("task.create"), true).unwrap(), "task.create");
}

#[test]
fn error_codes_map_to_statuses_and_retry_flags() {
    assert_eq!(status_for_code(RpcErrorCode::Unauthorized), 401);
    assert_eq!(status_for_code(RpcErrorCode::Forbidden), 403);
    assert_eq!(status_for_code(RpcErrorCode::IdempotencyConflict), 409);
    assert_eq!(status_for_code(RpcErrorCode::PreconditionFailed), 412);
    assert_eq!(status_for_code(RpcErrorCode::RateLimited), 429);
    assert_eq!(status_for_code(RpcErrorCode::Timeout), 408);
    assert_eq!(status_for_code(RpcErrorCode::BackpressureDropped), 503);
    assert_eq!(status_for_code(RpcErrorCode::Internal), 500);
    assert!(ApiError::service_unavailable("x".to_string()).retryable);
    assert!(!ApiError::conflict("x".to_string()).retryable);
    let body = ApiError::task_not_found("gone".to_string()).as_body();
    assert_eq!(body.code, "TASK_NOT_FOUND");
    assert_eq!(ApiError::method_not_found("a.b").message, "method 'a.b' is not supported by rpc v1");
}

#[test]
fn token_mode_without_credentials_is_unauthorized() {
    let auth = Authenticator::Token(TokenAuthenticator::new("super-secret-token".to_string()));
    let err = auth.authorize(None, &None).unwrap_err();
    assert_eq!(err.code, RpcErrorCode::Unauthorized);
    assert_eq!(err.status, 401);
    assert_eq!(auth.authorize(Some("Bearer super-secret-token"), &None).unwrap(), "super-secret-token");
    assert_eq!(auth.authorize(Some("BEARER super-secret-token"), &None).unwrap(), "super-secret-token");
    assert!(auth.authorize(Some("Bearer wrong"), &None).is_err());
}

#[test]
fn bearer_header_is_trimmed_and_stripped() {
    assert_eq!(token_from_header("  Bearer abc  ").as_deref(), Some("abc"));
    assert_eq!(token_from_header("Basic abc"), None);
}

#[test]
fn catalogs_answer_membership() {
    assert!(is_known_method("task.create"));
    assert!(!is_known_method("task.nope"));
    assert!(is_mutating_method("loop.merge"));
    assert!(!is_mutating_method("task.list"));
    assert!(is_known_topic("stream.keepalive"));
    assert!(!is_known_topic("made.up"));
    assert_eq!(method_family("planning.start"), MethodFamily::Planning);
    assert_eq!(method_family("zzz"), MethodFamily::Unknown);
}

#[test]
fn idempotency_replay_then_conflict() {
    let mut store = InMemoryIdempotencyStore::new(60_000);
    let params = "{\"id\":\"t1\",\"title\":\"bootstrap task\"}";
    let key = idempotency_key_for("task.create", Some("idem-1"), "r1").unwrap().unwrap();
    assert!(matches!(idempotency_step(store.check("task.create", &key, params, 10), "r1", "task.create", &key), IdempotencyStep::Proceed));
    store.store("task.create", &key, params, &StoredResponse { status: 200, envelope: "E1".to_string() }, 10);
    match idempotency_step(store.check("task.create", &key, params, 20), "r1", "task.create", &key) {
        IdempotencyStep::Replay { status, envelope } => {
            assert_eq!(status, 200);
            assert_eq!(envelope, "E1");
        }
        _ => panic!("expected replay"),
    }
    let other = "{\"id\":\"t1\",\"title\":\"different\"}";
    match idempotency_step(store.check("task.create", &key, other, 30), "r1", "task.create", &key) {
        IdempotencyStep::Reject(e) => {
            assert_eq!(e.code, RpcErrorCode::IdempotencyConflict);
            assert_eq!(e.status, 409);
        }
        _ => panic!("expected conflict"),
    }
    assert!(idempotency_key_for("task.create", None, "r1").is_err());
    assert!(idempotency_key_for("task.list", None, "r1").unwrap().is_none());
}

#[test]
fn idempotency_entry_expires_after_ttl() {
    let mut store = InMemoryIdempotencyStore::new(1_000);
    store.store("task.create", "k", "{}", &StoredResponse { status: 200, envelope: "E".to_string() }, 0);
    assert!(matches!(store.check("task.create", "k", "{}", 1_000), IdempotencyCheck::Replay(_)));
    assert!(matches!(store.check("task.create", "k", "{}", 1_001), IdempotencyCheck::New));
}

#[test]
fn ready_set_follows_blocker_closure() {
    let mut tasks = TaskDomain::new();
    tasks.create(create_params("A", Some(TaskStatus::Open), None, Some(false)), 1).unwrap();
    tasks.create(create_params("B", Some(TaskStatus::Open), Some("A"), Some(false)), 2).unwrap();
    assert_eq!(ids(&tasks.ready()), vec!["A"]);
    tasks.close("A", 3).unwrap();
    assert_eq!(ids(&tasks.ready()), vec!["B"]);
}

#[test]
fn ready_set_is_ordered_by_creation_time() {
    let mut tasks = TaskDomain::new();
    tasks.create(create_params("late", None, None, Some(false)), 50).unwrap();
    tasks.create(create_params("early", None, None, Some(false)), 10).unwrap();
    assert_eq!(ids(&tasks.ready()), vec!["early", "late"]);
}

#[test]
fn create_auto_executes_open_unblocked_task() {
    let mut tasks = TaskDomain::new();
    let t = tasks.create(create_params("t1", None, None, None), 1_700_000_000_000).unwrap();
    assert_eq!(t.status, TaskStatus::Pending);
    assert_eq!(t.priority, 2);
    assert_eq!(t.queued_task_id.as_deref(), Some("queued-1700000000000-0001"));
    assert_eq!(tasks.queue_counter(), 1);
}

#[test]
fn create_rejects_duplicates_and_auto_execute_for_non_open() {
    let mut tasks = TaskDomain::new();
    tasks.create(create_params("t1", None, None, Some(false)), 1).unwrap();
    let dup = tasks.create(create_params("t1", None, None, Some(false)), 2).unwrap_err();
    assert_eq!(dup.code, RpcErrorCode::Conflict);
    let bad = tasks.create(create_params("t2", Some(TaskStatus::Closed), None, Some(true)), 2).unwrap_err();
    assert_eq!(bad.code, RpcErrorCode::InvalidParams);
    let closed = tasks.create(create_params("t3", Some(TaskStatus::Closed), None, Some(false)), 7).unwrap();
    assert_eq!(closed.completed_at, Some(7));
}

#[test]
fn priority_is_clamped() {
    let mut tasks = TaskDomain::new();
    let mut p = create_params("t1", None, None, Some(false));
    p.priority = Some(9);
    assert_eq!(tasks.create(p, 1).unwrap().priority, 5);
    let u = tasks
        .update(TaskUpdateInput { id: "t1".to_string(), title: None, status: None, priority: Some(0), blocked_by: None }, 2)
        .unwrap();
    assert_eq!(u.priority, 1);
}

#[test]
fn update_to_non_terminal_clears_terminal_and_queue_fields() {
    let mut tasks = TaskDomain::new();
    tasks.create(create_params("t1", None, None, None), 1).unwrap();
    let cancelled = tasks.cancel("t1", 2).unwrap();
    assert_eq!(cancelled.status, TaskStatus::Failed);
    assert_eq!(cancelled.error_message.as_deref(), Some("Task cancelled by user"));
    assert_eq!(cancelled.completed_at, Some(2));
    assert_eq!(cancelled.queued_task_id, None);
    let reopened = tasks
        .update(
            TaskUpdateInput { id: "t1".to_string(), title: None, status: Some(TaskStatus::Open), priority: None, blocked_by: None },
            3,
        )
        .unwrap();
    assert_eq!(reopened.completed_at, None);
    assert_eq!(reopened.error_message, None);
    assert_eq!(reopened.queued_task_id, None);
}

#[test]
fn delete_only_terminal_tasks() {
    let mut tasks = TaskDomain::new();
    tasks.create(create_params("t1", None, None, Some(false)), 1).unwrap();
    assert_eq!(tasks.delete("t1").unwrap_err().code, RpcErrorCode::PreconditionFailed);
    tasks.close("t1", 2).unwrap();
    assert!(tasks.delete("t1").is_ok());
    assert_eq!(tasks.get("t1").unwrap_err().code, RpcErrorCode::TaskNotFound);
}

#[test]
fn run_retry_cancel_and_status() {
    let mut tasks = TaskDomain::new();
    tasks.create(create_params("a", None, None, Some(false)), 1).unwrap();
    tasks.create(create_params("b", None, None, Some(false)), 2).unwrap();
    let ra = tasks.run("a", 10).unwrap();
    assert!(ra.success);
    assert_eq!(ra.queued_task_id, "queued-10-0001");
    tasks.run("b", 5).unwrap();
    assert_eq!(tasks.run("a", 11).unwrap_err().code, RpcErrorCode::PreconditionFailed);
    let st = tasks.status("a", 42);
    assert!(st.is_queued);
    assert_eq!(st.queue_position, Some(1));
    assert_eq!(st.runner_pid, None);
    assert_eq!(tasks.status("b", 42).queue_position, Some(0));
    assert_eq!(tasks.retry("a", 12).unwrap_err().code, RpcErrorCode::PreconditionFailed);
    tasks.cancel("a", 13).unwrap();
    let retried = tasks.retry("a", 14).unwrap();
    assert_eq!(retried.task.unwrap().status, TaskStatus::Pending);
    assert!(!tasks.status("missing", 1).is_queued);
    let running = tasks
        .update(TaskUpdateInput { id: "b".to_string(), title: None, status: Some(TaskStatus::Running), priority: None, blocked_by: None }, 20)
        .unwrap();
    assert_eq!(running.status, TaskStatus::Running);
    assert_eq!(tasks.status("b", 42).runner_pid, Some(42));
}

#[test]
fn run_all_queues_every_ready_task() {
    let mut tasks = TaskDomain::new();
    tasks.create(create_params("a", None, None, Some(false)), 1).unwrap();
    tasks.create(create_params("b", None, Some("a"), Some(false)), 2).unwrap();
    tasks.create(create_params("c", None, None, Some(false)), 3).unwrap();
    let r = tasks.run_all(10);
    assert_eq!(r.enqueued, 2);
    assert!(r.errors.is_empty());
    assert_eq!(tasks.get("b").unwrap().status, TaskStatus::Open);
    assert_eq!(tasks.get("c").unwrap().status, TaskStatus::Pending);
}

#[test]
fn archive_unarchive_list_and_clear() {
    let mut tasks = TaskDomain::new();
    tasks.create(create_params("a", None, None, Some(false)), 1).unwrap();
    tasks.create(create_params("b", None, Some("a"), Some(false)), 2).unwrap();
    tasks.archive("a", 3).unwrap();
    assert_eq!(ids(&tasks.list(TaskListParams { status: None, include_archived: None })), vec!["b"]);
    assert_eq!(ids(&tasks.list(TaskListParams { status: None, include_archived: Some(true) })), vec!["a", "b"]);
    assert_eq!(ids(&tasks.ready()), vec!["b"]);
    assert_eq!(tasks.run("a", 4).unwrap_err().code, RpcErrorCode::PreconditionFailed);
    tasks.unarchive("a", 5).unwrap();
    assert_eq!(tasks.get("a").unwrap().archived_at, None);
    tasks.clear();
    assert!(tasks.tasks().is_empty());
}

#[test]
fn task_status_names_round_trip() {
    for s in [TaskStatus::Open, TaskStatus::Pending, TaskStatus::Running, TaskStatus::Closed, TaskStatus::Failed] {
        assert_eq!(TaskStatus::parse(s.as_str()), Some(s));
    }
    assert_eq!(TaskStatus::parse("blocked"), None);
}

fn subscribe(bus: &mut StreamDomain, cursor: Option<String>, limit: Option<u16>, ids: &[&str], now: u64) -> String {
    let mut filters = SubscriptionFilters::new();
    for id in ids {
        filters.add_resource_id(id);
    }
    bus.subscribe(
        StreamSubscribeParams {
            topics: vec!["task.status.changed".to_string()],
            cursor,
            replay_limit: limit,
            filters,
        },
        "trusted_local",
        now,
    )
    .unwrap()
    .subscription_id
}

fn publish_task(bus: &mut StreamDomain, id: &str, now: u64) -> u64 {
    bus.publish("task.status.changed", "task", id, EventPayload::Json("{}".to_string()), now).unwrap().sequence
}

#[test]
fn cursor_round_trips_and_takes_last_segment() {
    let c = format_cursor(1_700_000_000_123, 42);
    assert_eq!(c, "1700000000123-42");
    assert_eq!(cursor_sequence(&c).unwrap(), 42);
    assert_eq!(cursor_sequence("a-b-7").unwrap(), 7);
    assert_eq!(cursor_sequence("nodash").unwrap_err().code, RpcErrorCode::InvalidParams);
    assert!(cursor_sequence("1-x").is_err());
    assert!(cursor_sequence("1-").is_err());
}

#[test]
fn live_event_reaches_a_filtered_subscriber() {
    let mut bus = StreamDomain::new();
    let sub = subscribe(&mut bus, None, None, &["t2"], 1_000);
    assert!(sub.starts_with("sub-1000-0001"));
    let ev = bus
        .publish("task.status.changed", "task", "t2", EventPayload::Json("{\"from\":\"none\",\"to\":\"open\"}".to_string()), 1_001)
        .unwrap();
    assert_eq!(ev.replay.mode, ReplayMode::Live);
    assert!(bus.matches_subscription(&sub, &ev));
    match bus.on_stream_input(&sub, StreamInput::Live(ev.clone()), 1_002) {
        StreamStep::Send(e) => assert_eq!(e.resource.id, "t2"),
        _ => panic!("expected delivery"),
    }
    let other = bus.publish("task.status.changed", "task", "t9", EventPayload::Json("{}".to_string()), 1_003).unwrap();
    assert!(!bus.matches_subscription(&sub, &other));
    assert!(matches!(bus.on_stream_input(&sub, StreamInput::Live(other), 1_004), StreamStep::Skip));
}

#[test]
fn resume_with_cursor_replays_in_order_without_duplicates() {
    let mut bus = StreamDomain::new();
    publish_task(&mut bus, "x", 1);
    let first = publish_task(&mut bus, "x", 2);
    let cursor1 = format_cursor(2, first);
    publish_task(&mut bus, "x", 3);
    publish_task(&mut bus, "x", 4);
    let sub = subscribe(&mut bus, Some(cursor1.clone()), Some(10), &[], 5);
    let batch = bus.replay_for_subscription(&sub).unwrap();
    assert_eq!(batch.dropped_count, 0);
    assert_eq!(batch.events.len(), 2);
    assert!(batch.events[0].sequence < batch.events[1].sequence);
    for e in &batch.events {
        assert_eq!(e.replay.mode, ReplayMode::Resume);
        assert_ne!(e.cursor, cursor1);
        assert_eq!(e.replay.batch, Some(2));
    }
}

#[test]
fn replay_overflow_is_capped_after_a_backpressure_notice() {
    let mut bus = StreamDomain::new();
    let start = publish_task(&mut bus, "x", 1);
    let cursor = format_cursor(1, start);
    for t in 0..8 {
        publish_task(&mut bus, "x", 2 + t);
    }
    let sub = subscribe(&mut bus, Some(cursor), Some(3), &[], 20);
    let frames = bus.open_stream(&sub, 21).unwrap();
    assert_eq!(frames.len(), 4);
    assert_eq!(frames[0].topic, "error.raised");
    match &frames[0].payload {
        EventPayload::Backpressure { dropped, message } => {
            assert_eq!(*dropped, 5);
            assert!(message.contains("dropped 5 event(s)"));
        }
        _ => panic!("expected backpressure payload"),
    }
    assert_eq!(frames[1].sequence, 6);
    assert_eq!(frames[3].sequence, 8);
}

#[test]
fn ack_moves_forward_only_and_reconnect_replays_newer() {
    let mut bus = StreamDomain::new();
    let sub = subscribe(&mut bus, None, None, &[], 1);
    let first_seq = publish_task(&mut bus, "x", 2);
    let second_seq = publish_task(&mut bus, "x", 3);
    bus.ack(&sub, format_cursor(3, second_seq)).unwrap();
    let err = bus.ack(&sub, format_cursor(2, first_seq)).unwrap_err();
    assert_eq!(err.code, RpcErrorCode::PreconditionFailed);
    assert_eq!(bus.ack(&sub, "bad".to_string()).unwrap_err().code, RpcErrorCode::InvalidParams);
    assert_eq!(bus.ack("sub-none", format_cursor(1, 1)).unwrap_err().code, RpcErrorCode::NotFound);
    assert!(bus.replay_for_subscription(&sub).unwrap().events.is_empty());
    let third_seq = publish_task(&mut bus, "x", 4);
    let batch = bus.replay_for_subscription(&sub).unwrap();
    assert_eq!(batch.events.len(), 1);
    assert_eq!(batch.events[0].sequence, third_seq);
}

#[test]
fn stream_requires_the_owning_principal() {
    let mut bus = StreamDomain::new();
    let sub = bus
        .subscribe(
            StreamSubscribeParams {
                topics: vec!["task.status.changed".to_string()],
                cursor: None,
                replay_limit: None,
                filters: SubscriptionFilters::new(),
            },
            "token-a",
            1,
        )
        .unwrap()
        .subscription_id;
    assert!(bus.authorize_stream(Some(&sub), "token-a"));
    assert!(!bus.authorize_stream(Some(&sub), "token-b"));
    assert!(!bus.authorize_stream(None, "token-a"));
    assert!(!bus.authorize_stream(Some("sub-unknown"), "token-a"));
}

#[test]
fn unsubscribe_removes_the_subscription() {
    let mut bus = StreamDomain::new();
    let sub = subscribe(&mut bus, None, None, &[], 1);
    assert!(bus.has_subscription(&sub));
    bus.unsubscribe(&sub).unwrap();
    assert!(!bus.has_subscription(&sub));
    assert_eq!(bus.unsubscribe(&sub).unwrap_err().code, RpcErrorCode::NotFound);
}

#[test]
fn topics_are_checked_and_deduplicated() {
    let t = vec!["task.status.changed".to_string(), "loop.merge.progress".to_string(), "task.status.changed".to_string()];
    assert_eq!(normalize_topics(&t).unwrap(), vec!["task.status.changed", "loop.merge.progress"]);
    assert!(normalize_topics(&vec![]).is_err());
    assert_eq!(normalize_topics(&vec!["nope".to_string()]).unwrap_err().code, RpcErrorCode::InvalidParams);
}

#[test]
fn unknown_topics_are_not_published() {
    let mut bus = StreamDomain::new();
    assert!(bus.publish("not.a.topic", "task", "t", EventPayload::Json("{}".to_string()), 1).is_none());
    assert_eq!(publish_task(&mut bus, "t", 2), 0);
}

#[test]
fn keepalive_and_ping_steps() {
    let mut bus = StreamDomain::new();
    let sub = subscribe(&mut bus, None, None, &[], 1);
    match bus.on_stream_input(&sub, StreamInput::Tick, 2) {
        StreamStep::Send(e) => {
            assert_eq!(e.topic, "stream.keepalive");
            assert!(matches!(e.payload, EventPayload::Keepalive { interval_ms: 15000 }));
        }
        _ => panic!("expected keepalive"),
    }
    assert!(matches!(bus.on_stream_input(&sub, StreamInput::Ping(vec![1, 2]), 3), StreamStep::Pong(p) if p == vec![1, 2]));
    assert!(matches!(bus.on_stream_input(&sub, StreamInput::Closed, 3), StreamStep::Stop));
}

#[test]
fn filters_ignore_blank_values() {
    let mut f = SubscriptionFilters::new();
    f.add_resource_id("   ");
    f.add_resource_id("a");
    f.add_resource_id("a");
    f.add_resource_type("task");
    assert_eq!(f.resource_ids, vec!["a"]);
    assert_eq!(f.resource_types, vec!["task"]);
}

#[test]
fn session_ids_and_artifact_names_are_guarded() {
    assert!(validate_session_id("20240101T000000-abc_1").is_ok());
    assert_eq!(validate_session_id("../etc").unwrap_err().code, RpcErrorCode::InvalidParams);
    assert!(validate_session_id("").is_err());
    assert!(validate_session_id(&"a".repeat(121)).is_err());
    assert!(validate_session_id(&"a".repeat(120)).is_ok());
    assert!(is_listed_artifact_name("plan.md"));
    assert!(!is_listed_artifact_name(".secret"));
    assert!(!is_listed_artifact_name("a b"));
    assert_eq!(check_artifact_request("sess1", ".env").unwrap_err().code, RpcErrorCode::NotFound);
    assert_eq!(check_artifact_request("sess1", "../x").unwrap_err().code, RpcErrorCode::InvalidParams);
    assert_eq!(check_artifact_request("bad/id", "plan.md").unwrap_err().code, RpcErrorCode::InvalidParams);
    assert!(check_artifact_request("sess1", "plan.md").is_ok());
    assert_eq!(
        check_artifact_entry("sess1", "plan.md", true, Some(EntryKind::Symlink)).unwrap_err().code,
        RpcErrorCode::NotFound
    );
    assert_eq!(
        check_artifact_entry("sess1", "plan.md", false, Some(EntryKind::File)).unwrap_err().code,
        RpcErrorCode::PlanningSessionNotFound
    );
    assert!(check_artifact_entry("sess1", "plan.md", true, Some(EntryKind::File)).is_ok());
}

#[test]
fn titles_and_display_status() {
    assert_eq!(generate_title("  short prompt  "), "short prompt");
    let long = "x".repeat(61);
    let t = generate_title(&long);
    assert_eq!(t.chars().count(), 60);
    assert!(t.ends_with("..."));
    assert_eq!(to_frontend_status("waiting_for_input"), "paused");
    assert_eq!(to_frontend_status("active"), "active");
    assert_eq!(trim_str("\u{3000} a \t"), "a");
}

#[test]
fn response_meta_names_the_server() {
    let meta = ralph_api::pipeline::response_meta("ralph-api", "2024-01-01T00:00:00Z".to_string());
    assert_eq!(meta.served_by, "ralph-api");
    assert_eq!(meta.served_at, "2024-01-01T00:00:00Z");
}

#[test]
fn errors_carry_their_details() {
    use_details();
}

fn detail_text(e: &ApiError, key: &str) -> Option<String> {
    e.details.iter().rev().find(|d| d.key == key).and_then(|d| match &d.value {
        ralph_api::errors::DetailValue::Text(t) => Some(t.clone()),
        _ => None,
    })
}

fn use_details() {
    let e = ApiError::method_not_found("a.b");
    assert_eq!(detail_text(&e, "method").as_deref(), Some("a.b"));
    let mut store = InMemoryIdempotencyStore::new(60_000);
    store.store("task.create", "k1", "{\"a\":1}", &StoredResponse { status: 200, envelope: "E".to_string() }, 1);
    match idempotency_step(store.check("task.create", "k1", "{\"a\":2}", 2), "r9", "task.create", "k1") {
        IdempotencyStep::Reject(e) => {
            assert_eq!(detail_text(&e, "method").as_deref(), Some("task.create"));
            assert_eq!(detail_text(&e, "idempotencyKey").as_deref(), Some("k1"));
            assert!(!e.retryable);
        }
        _ => panic!("expected conflict"),
    }
    let mut tasks = TaskDomain::new();
    tasks.create(create_params("t1", None, None, Some(false)), 1).unwrap();
    let dup = tasks.create(create_params("t1", None, None, Some(false)), 2).unwrap_err();
    assert_eq!(detail_text(&dup, "taskId").as_deref(), Some("t1"));
    assert_eq!(dup.status, 409);
    let refused = tasks.delete("t1").unwrap_err();
    assert_eq!(refused.status, 412);
    assert_eq!(detail_text(&refused, "status").as_deref(), Some("open"));
    assert!(refused.details.iter().any(|d| d.key == "allowedStatuses"
        && matches!(&d.value, ralph_api::errors::DetailValue::List(v) if v == &vec!["failed".to_string(), "closed".to_string()])));
}

#[test]
fn status_update_to_running_mints_a_queue_id() {
    let mut tasks = TaskDomain::new();
    tasks.create(create_params("t1", None, None, Some(false)), 1).unwrap();
    let t = tasks
        .update(TaskUpdateInput { id: "t1".to_string(), title: None, status: Some(TaskStatus::Running), priority: None, blocked_by: None }, 50)
        .unwrap();
    assert_eq!(t.queued_task_id.as_deref(), Some("queued-50-0001"));
    let p = tasks.create(create_params("t2", Some(TaskStatus::Pending), None, Some(false)), 60).unwrap();
    assert_eq!(p.queued_task_id.as_deref(), Some("queued-60-0002"));
}

#[test]
fn run_all_reports_a_clashing_queue_id() {
    let mut seed = TaskDomain::new();
    seed.create(create_params("a", None, None, Some(false)), 1).unwrap();
    seed.create(create_params("b", None, None, Some(false)), 2).unwrap();
    seed.run("a", 10).unwrap();
    let records: Vec<_> = seed.tasks().iter().map(|t| t.copy()).collect();
    let mut tasks = TaskDomain::restore(records, 0);
    let r = tasks.run_all(10);
    assert_eq!(r.enqueued, 0);
    assert_eq!(r.errors.len(), 1);
    assert_eq!(tasks.get("b").unwrap().status, TaskStatus::Open);
    let r = tasks.run_all(10);
    assert_eq!(r.enqueued, 1);
    assert_eq!(tasks.get("b").unwrap().queued_task_id.as_deref(), Some("queued-10-0002"));
}
