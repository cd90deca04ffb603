//! The method catalog, the mutating subset that idempotency guards, and the
//! catalog of stream topics.
use vstd::prelude::*;

verus! {

/// The one supported protocol version.
pub const API_VERSION: &'static str = "v1";

/// The name of the event stream.
pub const STREAM_NAME: &'static str = "events.v1";

/// The characters of each string in a list.
pub open spec fn names_of(v: Seq<&str>) -> Seq<Seq<char>> {
    v.map_values(|s: &str| s@)
}

/// Every method that the API answers.
pub open spec fn known_methods() -> Seq<Seq<char>> {
    seq![
        "system.health"@,
        "system.version"@,
        "system.capabilities"@,
        "task.list"@,
        "task.get"@,
        "task.ready"@,
        "task.create"@,
        "task.update"@,
        "task.close"@,
        "task.archive"@,
        "task.unarchive"@,
        "task.delete"@,
        "task.clear"@,
        "task.run"@,
        "task.run_all"@,
        "task.retry"@,
        "task.cancel"@,
        "task.status"@,
        "loop.list"@,
        "loop.status"@,
        "loop.process"@,
        "loop.prune"@,
        "loop.retry"@,
        "loop.discard"@,
        "loop.stop"@,
        "loop.merge"@,
        "loop.merge_button_state"@,
        "loop.trigger_merge_task"@,
        "planning.list"@,
        "planning.get"@,
        "planning.start"@,
        "planning.respond"@,
        "planning.resume"@,
        "planning.delete"@,
        "planning.get_artifact"@,
        "config.get"@,
        "config.update"@,
        "preset.list"@,
        "collection.list"@,
        "collection.get"@,
        "collection.create"@,
        "collection.update"@,
        "collection.delete"@,
        "collection.import"@,
        "collection.export"@,
        "stream.subscribe"@,
        "stream.unsubscribe"@,
        "stream.ack"@,
    ]
}

/// The methods whose success changes persistent state.
pub open spec fn mutating_methods() -> Seq<Seq<char>> {
    seq![
        "task.create"@,
        "task.update"@,
        "task.close"@,
        "task.archive"@,
        "task.unarchive"@,
        "task.delete"@,
        "task.clear"@,
        "task.run"@,
        "task.run_all"@,
        "task.retry"@,
        "task.cancel"@,
        "loop.process"@,
        "loop.prune"@,
        "loop.retry"@,
        "loop.discard"@,
        "loop.stop"@,
        "loop.merge"@,
        "loop.trigger_merge_task"@,
        "planning.start"@,
        "planning.respond"@,
        "planning.resume"@,
        "planning.delete"@,
        "config.update"@,
        "collection.create"@,
        "collection.update"@,
        "collection.delete"@,
        "collection.import"@,
    ]
}

/// Every topic that the event stream carries.
pub open spec fn stream_topics() -> Seq<Seq<char>> {
    seq![
        "system.heartbeat"@,
        "system.lifecycle"@,
        "task.log.line"@,
        "task.status.changed"@,
        "loop.status.changed"@,
        "loop.merge.progress"@,
        "planning.prompt.issued"@,
        "planning.response.recorded"@,
        "planning.artifact.updated"@,
        "config.updated"@,
        "collection.updated"@,
        "preset.refreshed"@,
        "error.raised"@,
        "stream.keepalive"@,
    ]
}

/// The method catalog, in order.
pub fn known_method_names() -> (r: Vec<&'static str>)
    ensures
        names_of(r@) == known_methods(),
{
    let v = vec![
        "system.health",
        "system.version",
        "system.capabilities",
        "task.list",
        "task.get",
        "task.ready",
        "task.create",
        "task.update",
        "task.close",
        "task.archive",
        "task.unarchive",
        "task.delete",
        "task.clear",
        "task.run",
        "task.run_all",
        "task.retry",
        "task.cancel",
        "task.status",
        "loop.list",
        "loop.status",
        "loop.process",
        "loop.prune",
        "loop.retry",
        "loop.discard",
        "loop.stop",
        "loop.merge",
        "loop.merge_button_state",
        "loop.trigger_merge_task",
        "planning.list",
        "planning.get",
        "planning.start",
        "planning.respond",
        "planning.resume",
        "planning.delete",
        "planning.get_artifact",
        "config.get",
        "config.update",
        "preset.list",
        "collection.list",
        "collection.get",
        "collection.create",
        "collection.update",
        "collection.delete",
        "collection.import",
        "collection.export",
        "stream.subscribe",
        "stream.unsubscribe",
        "stream.ack",
    ];
    assert(names_of(v@) =~= known_methods());
    v
}

/// The mutating methods, in order.
pub fn mutating_method_names() -> (r: Vec<&'static str>)
    ensures
        names_of(r@) == mutating_methods(),
{
    let v = vec![
        "task.create",
        "task.update",
        "task.close",
        "task.archive",
        "task.unarchive",
        "task.delete",
        "task.clear",
        "task.run",
        "task.run_all",
        "task.retry",
        "task.cancel",
        "loop.process",
        "loop.prune",
        "loop.retry",
        "loop.discard",
        "loop.stop",
        "loop.merge",
        "loop.trigger_merge_task",
        "planning.start",
        "planning.respond",
        "planning.resume",
        "planning.delete",
        "config.update",
        "collection.create",
        "collection.update",
        "collection.delete",
        "collection.import",
    ];
    assert(names_of(v@) =~= mutating_methods());
    v
}

/// The topic catalog, in order.
pub fn stream_topic_names() -> (r: Vec<&'static str>)
    ensures
        names_of(r@) == stream_topics(),
{
    let v = vec![
        "system.heartbeat",
        "system.lifecycle",
        "task.log.line",
        "task.status.changed",
        "loop.status.changed",
        "loop.merge.progress",
        "planning.prompt.issued",
        "planning.response.recorded",
        "planning.artifact.updated",
        "config.updated",
        "collection.updated",
        "preset.refreshed",
        "error.raised",
        "stream.keepalive",
    ];
    assert(names_of(v@) =~= stream_topics());
    v
}

/// Whether `name` is one of `names`.
pub fn list_contains(names: &Vec<&str>, name: &str) -> (r: bool)
    ensures
        r == names_of(names@).contains(name@),
{
    let mut i: usize = 0;
    while i < names.len()
        invariant
            0 <= i <= names@.len(),
            forall|j: int| 0 <= j < i ==> names@[j]@ != name@,
        decreases names@.len() - i,
    {
        if crate::text::str_eq(names[i], name) {
            assert(names_of(names@)[i as int] == name@);
            return true;
        }
        i = i + 1;
    }
    proof {
        if names_of(names@).contains(name@) {
            let k = choose|k: int| 0 <= k < names_of(names@).len() && names_of(names@)[k] == name@;
            assert(names@[k]@ == name@);
        }
    }
    false
}

/// Whether the catalog holds `method`.
pub fn is_known_method(method: &str) -> (r: bool)
    ensures
        r == known_methods().contains(method@),
{
    let names = known_method_names();
    list_contains(&names, method)
}

/// Whether `method` is a mutating method.
pub fn is_mutating_method(method: &str) -> (r: bool)
    ensures
        r == mutating_methods().contains(method@),
{
    let names = mutating_method_names();
    list_contains(&names, method)
}

/// Whether `topic` is in the topic catalog.
pub fn is_known_topic(topic: &str) -> (r: bool)
    ensures
        r == stream_topics().contains(topic@),
{
    let names = stream_topic_names();
    list_contains(&names, topic)
}

} // verus!
