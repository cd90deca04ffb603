//! Hat collections: the records the collection store keeps and the id it
//! mints for a new collection.
use vstd::prelude::*;

use crate::errors::{ApiError, RpcErrorCode};
use crate::ordering::{sort_by_name_id, sorted_by_name_id, NamedById};
use crate::text::{decimal, hex, pad4, push_decimal, push_hex4, str_eq};

verus! {

/// One collection in a listing.
#[derive(Debug, Clone)]
pub struct CollectionSummary {
    pub id: String,
    pub name: String,
    pub description: Option<String>,
    pub created_at: String,
    pub updated_at: String,
}

/// What `collection.import` asks for.
#[derive(Debug, Clone)]
pub struct CollectionImportParams {
    pub yaml: String,
    pub name: String,
    pub description: Option<String>,
}

/// The data of a hat node of a collection graph.
#[derive(Debug, Clone)]
pub struct HatNodeData {
    pub key: String,
    pub name: String,
    pub description: String,
    pub triggers_on: Vec<String>,
    pub publishes: Vec<String>,
    pub instructions: Option<String>,
}

/// An edge of a collection graph: an event that `source` publishes and
/// `target` is triggered by.
#[derive(Debug, Clone)]
pub struct GraphEdge {
    pub id: String,
    pub source: String,
    pub target: String,
    pub source_handle: Option<String>,
    pub target_handle: Option<String>,
    pub label: Option<String>,
}

/// The id of a new collection.
pub open spec fn collection_id_text(now: u64, counter: u64) -> Seq<char> {
    "collection-"@ + decimal(now as nat) + "-"@ + pad4(hex(counter as nat))
}

/// Mints the id of a new collection from the clock and the store's counter.
pub fn collection_id(now: u64, counter: u64) -> (r: String)
    ensures
        r@ == collection_id_text(now, counter),
{
    let mut r = "collection-".to_owned();
    push_decimal(&mut r, now);
    r.append("-");
    push_hex4(&mut r, counter);
    r
}


/// The graph of a collection that is created without one.
pub const DEFAULT_GRAPH: &'static str = "{\"nodes\":[],\"edges\":[],\"viewport\":{\"x\":0,\"y\":0,\"zoom\":1}}";

/// A stored collection; its graph is kept as JSON text.
#[derive(Debug, Clone)]
pub struct CollectionRecord {
    pub id: String,
    pub name: String,
    pub description: Option<String>,
    pub graph: String,
    pub created_at: String,
    pub updated_at: String,
}

/// What `collection.create` asks for; the graph is JSON text.
#[derive(Debug, Clone)]
pub struct CollectionCreateParams {
    pub name: String,
    pub description: Option<String>,
    pub graph: Option<String>,
}

/// What `collection.update` asks for.
#[derive(Debug, Clone)]
pub struct CollectionUpdateParams {
    pub id: String,
    pub name: Option<String>,
    pub description: Option<String>,
    pub graph: Option<String>,
}

fn clone_opt(o: &Option<String>) -> (r: Option<String>)
    ensures
        r == *o,
{
    match o {
        Some(s) => Some(s.clone()),
        None => None,
    }
}

impl CollectionSummary {
    pub fn copy(&self) -> (r: CollectionSummary)
        ensures
            r == *self,
    {
        CollectionSummary {
            id: self.id.clone(),
            name: self.name.clone(),
            description: clone_opt(&self.description),
            created_at: self.created_at.clone(),
            updated_at: self.updated_at.clone(),
        }
    }
}

impl NamedById for CollectionSummary {
    open spec fn key_name(&self) -> Seq<char> {
        self.name@
    }

    open spec fn key_id(&self) -> Seq<char> {
        self.id@
    }

    fn name_str(&self) -> (r: &str) {
        self.name.as_str()
    }

    fn id_str(&self) -> (r: &str) {
        self.id.as_str()
    }

    fn duplicate(&self) -> (r: Self) {
        self.copy()
    }
}

impl CollectionRecord {
    pub fn copy(&self) -> (r: CollectionRecord)
        ensures
            r == *self,
    {
        CollectionRecord {
            id: self.id.clone(),
            name: self.name.clone(),
            description: clone_opt(&self.description),
            graph: self.graph.clone(),
            created_at: self.created_at.clone(),
            updated_at: self.updated_at.clone(),
        }
    }
}

/// The summary of a record.
pub open spec fn summary_of(r: CollectionRecord) -> CollectionSummary {
    CollectionSummary {
        id: r.id,
        name: r.name,
        description: r.description,
        created_at: r.created_at,
        updated_at: r.updated_at,
    }
}

/// `r` after `p` is applied at time `now`.
pub open spec fn updated_record(r: CollectionRecord, p: CollectionUpdateParams, now: String) -> CollectionRecord {
    CollectionRecord {
        name: match p.name {
            Some(n) => n,
            None => r.name,
        },
        description: match p.description {
            Some(d) => Some(d),
            None => r.description,
        },
        graph: match p.graph {
            Some(g) => g,
            None => r.graph,
        },
        updated_at: now,
        ..r
    }
}

fn collection_not_found(id: &str) -> (r: ApiError)
    ensures
        r.has_code(RpcErrorCode::CollectionNotFound),
{
    let mut m = "Collection '".to_owned();
    m.append(id);
    m.append("' not found");
    ApiError::collection_not_found(m).with_text("collectionId", id)
}

/// The collection store: one record per id.
pub struct CollectionDomain {
    collections: Vec<CollectionRecord>,
    id_counter: u64,
}

impl CollectionDomain {
    pub closed spec fn spec_records(&self) -> Seq<CollectionRecord> {
        self.collections@
    }

    pub closed spec fn spec_counter(&self) -> u64 {
        self.id_counter
    }

    pub open spec fn ids(&self) -> Seq<Seq<char>> {
        self.spec_records().map_values(|r: CollectionRecord| r.id@)
    }

    pub open spec fn contains(&self, id: Seq<char>) -> bool {
        self.ids().contains(id)
    }

    pub open spec fn index_of(&self, id: Seq<char>) -> int {
        choose|k: int| 0 <= k < self.ids().len() && self.ids()[k] == id
    }

    /// The record with id `id` (meaningful when there is one).
    pub open spec fn record(&self, id: Seq<char>) -> CollectionRecord {
        self.spec_records()[self.index_of(id)]
    }

    /// One record per id.
    pub open spec fn wf(&self) -> bool {
        forall|i: int, j: int|
            0 <= i < j < self.spec_records().len() ==> (#[trigger] self.spec_records()[i]).id@ != (
            #[trigger] self.spec_records()[j]).id@
    }

    pub fn new() -> (r: CollectionDomain)
        ensures
            r.wf(),
            r.spec_records().len() == 0,
            r.spec_counter() == 0,
    {
        CollectionDomain { collections: Vec::new(), id_counter: 0 }
    }

    /// The stored records.
    pub fn records(&self) -> (r: &Vec<CollectionRecord>)
        ensures
            r@ == self.spec_records(),
    {
        &self.collections
    }

    /// How many ids have been minted.
    pub fn id_counter(&self) -> (r: u64)
        ensures
            r == self.spec_counter(),
    {
        self.id_counter
    }

    fn find(&self, id: &str) -> (r: Option<usize>)
        requires
            self.wf(),
        ensures
            r matches Some(k) ==> k < self.spec_records().len() && k == self.index_of(id@) && self.contains(id@)
                && self.spec_records()[k as int].id@ == id@,
            r is None ==> !self.contains(id@),
    {
        let mut i: usize = 0;
        while i < self.collections.len()
            invariant
                self.wf(),
                0 <= i <= self.collections@.len(),
                forall|j: int| 0 <= j < i ==> self.collections@[j].id@ != id@,
            decreases self.collections@.len() - i,
        {
            if str_eq(self.collections[i].id.as_str(), id) {
                proof {
                    assert(self.ids()[i as int] == id@);
                    let k = self.index_of(id@);
                    if k < i {
                    } else if k > i {
                        assert(self.spec_records()[i as int].id@ != self.spec_records()[k].id@);
                    }
                }
                return Some(i);
            }
            i = i + 1;
        }
        None
    }

    /// Puts a record in the store, replacing one with the same id.
    fn put(&mut self, rec: CollectionRecord)
        requires
            old(self).wf(),
        ensures
            final(self).wf(),
            final(self).spec_counter() == old(self).spec_counter(),
            final(self).contains(rec.id@),
            final(self).record(rec.id@) == rec,
            forall|j: int|
                0 <= j < old(self).spec_records().len() && (#[trigger] old(self).spec_records()[j]).id@ != rec.id@
                    ==> final(self).spec_records().contains(old(self).spec_records()[j]),
            forall|j: int|
                0 <= j < final(self).spec_records().len() ==> #[trigger] final(self).spec_records()[j] == rec
                    || old(self).spec_records().contains(final(self).spec_records()[j]),
    {
        let ghost before = self.collections@;
        match self.find(rec.id.as_str()) {
            Some(k) => {
                self.collections.set(k, rec);
                proof {
                    let s = self.collections@;
                    assert(self.ids() =~= old(self).ids());
                    assert forall|i: int, j: int| 0 <= i < j < s.len() implies (#[trigger] s[i]).id@
                        != (#[trigger] s[j]).id@ by {
                        assert(before[i].id@ != before[j].id@);
                    }
                    assert forall|j: int|
                        0 <= j < before.len() && (#[trigger] before[j]).id@ != rec.id@ implies s.contains(before[j]) by {
                        assert(s[j] == before[j]);
                    }
                    assert forall|j: int| 0 <= j < s.len() implies #[trigger] s[j] == rec || before.contains(s[j]) by {
                        if j != k {
                            assert(s[j] == before[j]);
                        }
                    }
                }
            },
            None => {
                self.collections.push(rec);
                proof {
                    let s = self.collections@;
                    assert forall|i: int, j: int| 0 <= i < j < s.len() implies (#[trigger] s[i]).id@
                        != (#[trigger] s[j]).id@ by {
                        if j == s.len() - 1 {
                            assert(old(self).ids()[i] == before[i].id@);
                        }
                    }
                    assert forall|j: int|
                        0 <= j < before.len() && (#[trigger] before[j]).id@ != rec.id@ implies s.contains(before[j]) by {
                        assert(s[j] == before[j]);
                    }
                    assert forall|j: int| 0 <= j < s.len() implies #[trigger] s[j] == rec || before.contains(s[j]) by {
                        if j < before.len() {
                            assert(s[j] == before[j]);
                        }
                    }
                }
            },
        }
        proof {
            let k = self.index_of(rec.id@);
            assert(self.ids()[self.collections@.len() - 1] == self.collections@[self.collections@.len() - 1].id@);
            let w = choose|w: int| 0 <= w < self.collections@.len() && self.collections@[w] == rec;
            assert(self.ids()[w] == rec.id@);
            if k < w {
                assert(self.collections@[k].id@ != self.collections@[w].id@);
            } else if k > w {
                assert(self.collections@[w].id@ != self.collections@[k].id@);
            }
        }
    }

    /// Rebuilds a store from a snapshot; a repeated id keeps its last record.
    pub fn restore(records: Vec<CollectionRecord>, id_counter: u64) -> (r: CollectionDomain)
        ensures
            r.wf(),
            r.spec_counter() == id_counter,
            forall|i: int| 0 <= i < records@.len() ==> r.contains((#[trigger] records@[i]).id@),
            forall|i: int| 0 <= i < r.spec_records().len() ==> records@.contains(#[trigger] r.spec_records()[i]),
            forall|i: int|
                0 <= i < records@.len() && (forall|j: int| i < j < records@.len() ==> records@[j].id@ != records@[i].id@)
                    ==> r.record((#[trigger] records@[i]).id@) == records@[i],
    {
        let mut d = CollectionDomain::new();
        d.id_counter = id_counter;
        let mut i: usize = 0;
        while i < records.len()
            invariant
                d.wf(),
                d.spec_counter() == id_counter,
                0 <= i <= records@.len(),
                forall|j: int| 0 <= j < i ==> d.contains((#[trigger] records@[j]).id@),
                forall|j: int| 0 <= j < d.spec_records().len() ==> records@.contains(#[trigger] d.spec_records()[j]),
                forall|j: int|
                    0 <= j < i && (forall|m: int| j < m < i ==> records@[m].id@ != records@[j].id@) ==> d.record(
                        (#[trigger] records@[j]).id@,
                    ) == records@[j],
            decreases records@.len() - i,
        {
            let ghost before = d;
            d.put(records[i].copy());
            proof {
                assert forall|j: int| 0 <= j < d.spec_records().len() implies records@.contains(
                    #[trigger] d.spec_records()[j],
                ) by {
                    if d.spec_records()[j] == records@[i as int] {
                        assert(records@[i as int] == records@[i as int]);
                    }
                }
                assert forall|j: int|
                    0 <= j < i + 1 && (forall|m: int| j < m < i + 1 ==> records@[m].id@ != records@[j].id@) implies d.record(
                        (#[trigger] records@[j]).id@,
                    ) == records@[j] by {
                    if j < i {
                        let x = records@[j].id@;
                        assert(records@[i as int].id@ != x);
                        let k = before.index_of(x);
                        assert(before.ids()[k] == x);
                        assert(before.spec_records()[k] == records@[j]);
                        assert(d.spec_records().contains(before.spec_records()[k]));
                        let w = choose|w: int| 0 <= w < d.spec_records().len() && d.spec_records()[w] == before.spec_records()[k];
                        assert(d.ids()[w] == x);
                        let c = d.index_of(x);
                        if c < w {
                            assert(d.spec_records()[c].id@ != d.spec_records()[w].id@);
                        } else if c > w {
                            assert(d.spec_records()[w].id@ != d.spec_records()[c].id@);
                        }
                    }
                }
                assert forall|j: int| 0 <= j < i + 1 implies d.contains((#[trigger] records@[j]).id@) by {
                    if j < i && records@[j].id@ != records@[i as int].id@ {
                        let k = before.index_of(records@[j].id@);
                        assert(before.ids()[k] == records@[j].id@);
                        assert(before.spec_records()[k].id@ == records@[j].id@);
                        assert(d.spec_records().contains(before.spec_records()[k]));
                        let w = choose|w: int|
                            0 <= w < d.spec_records().len() && d.spec_records()[w] == before.spec_records()[k];
                        assert(d.ids()[w] == records@[j].id@);
                    }
                }
            }
            i = i + 1;
        }
        d
    }

    /// The summaries of every collection, by name then id.
    pub fn list(&self) -> (r: Vec<CollectionSummary>)
        ensures
            sorted_by_name_id(r@),
            r@.to_multiset() == self.spec_records().map_values(|x: CollectionRecord| summary_of(x)).to_multiset(),
    {
        let mut all: Vec<CollectionSummary> = Vec::new();
        let mut i: usize = 0;
        while i < self.collections.len()
            invariant
                0 <= i <= self.collections@.len(),
                all@ == self.collections@.subrange(0, i as int).map_values(|x: CollectionRecord| summary_of(x)),
            decreases self.collections@.len() - i,
        {
            let c = &self.collections[i];
            all.push(
                CollectionSummary {
                    id: c.id.clone(),
                    name: c.name.clone(),
                    description: clone_opt(&c.description),
                    created_at: c.created_at.clone(),
                    updated_at: c.updated_at.clone(),
                },
            );
            assert(all@ =~= self.collections@.subrange(0, i + 1).map_values(|x: CollectionRecord| summary_of(x)));
            i = i + 1;
        }
        assert(self.collections@.subrange(0, i as int) =~= self.collections@);
        sort_by_name_id(&all)
    }

    /// The collection with id `id`.
    pub fn get(&self, id: &str) -> (r: Result<CollectionRecord, ApiError>)
        requires
            self.wf(),
        ensures
            r matches Ok(c) ==> self.contains(id@) && c == self.record(id@),
            r matches Err(e) ==> !self.contains(id@) && e.has_code(RpcErrorCode::CollectionNotFound),
    {
        match self.find(id) {
            Some(k) => Ok(self.collections[k].copy()),
            None => Err(collection_not_found(id)),
        }
    }

    /// Stores a new collection under an id minted from `now_ms` and the
    /// counter; a collection without a graph gets the empty one.
    pub fn create(&mut self, params: CollectionCreateParams, now: String, now_ms: u64) -> (r: CollectionRecord)
        requires
            old(self).wf(),
        ensures
            final(self).wf(),
            final(self).spec_counter() == (if old(self).spec_counter() == u64::MAX {
                u64::MAX
            } else {
                (old(self).spec_counter() + 1) as u64
            }),
            r.id@ == collection_id_text(now_ms, final(self).spec_counter()),
            r.name == params.name,
            r.description == params.description,
            r.graph@ == (match params.graph {
                Some(g) => g@,
                None => DEFAULT_GRAPH@,
            }),
            r.created_at == now,
            r.updated_at == now,
            final(self).contains(r.id@),
            final(self).record(r.id@) == r,
            forall|j: int|
                0 <= j < old(self).spec_records().len() && (#[trigger] old(self).spec_records()[j]).id@ != r.id@
                    ==> final(self).spec_records().contains(old(self).spec_records()[j]),
            forall|j: int|
                0 <= j < final(self).spec_records().len() ==> #[trigger] final(self).spec_records()[j] == r
                    || old(self).spec_records().contains(final(self).spec_records()[j]),
    {
        self.id_counter = if self.id_counter == u64::MAX {
            u64::MAX
        } else {
            self.id_counter + 1
        };
        let id = collection_id(now_ms, self.id_counter);
        let graph = match params.graph {
            Some(g) => g,
            None => DEFAULT_GRAPH.to_owned(),
        };
        let rec = CollectionRecord {
            id,
            name: params.name,
            description: params.description,
            graph,
            created_at: now.clone(),
            updated_at: now,
        };
        let out = rec.copy();
        self.put(rec);
        out
    }

    /// Applies a partial update.
    pub fn update(&mut self, params: CollectionUpdateParams, now: String) -> (r: Result<CollectionRecord, ApiError>)
        requires
            old(self).wf(),
        ensures
            final(self).wf(),
            final(self).spec_counter() == old(self).spec_counter(),
            !old(self).contains(params.id@) ==> (r matches Err(e) && e.has_code(RpcErrorCode::CollectionNotFound)
                && final(self).spec_records() == old(self).spec_records()),
            old(self).contains(params.id@) ==> (r matches Ok(c) && c == updated_record(
                old(self).record(params.id@),
                params,
                now,
            ) && final(self).spec_records() == old(self).spec_records().update(old(self).index_of(params.id@), c)),
    {
        let k = match self.find(params.id.as_str()) {
            Some(k) => k,
            None => return Err(collection_not_found(params.id.as_str())),
        };
        let mut c = self.collections[k].copy();
        if let Some(name) = params.name {
            c.name = name;
        }
        if let Some(description) = params.description {
            c.description = Some(description);
        }
        if let Some(graph) = params.graph {
            c.graph = graph;
        }
        c.updated_at = now;
        let out = c.copy();
        let ghost before = self.collections@;
        self.collections.set(k, c);
        proof {
            let s = self.collections@;
            assert forall|i: int, j: int| 0 <= i < j < s.len() implies (#[trigger] s[i]).id@ != (#[trigger] s[j]).id@ by {
                assert(before[i].id@ != before[j].id@);
            }
        }
        Ok(out)
    }

    /// Removes a collection.
    pub fn delete(&mut self, id: &str) -> (r: Result<(), ApiError>)
        requires
            old(self).wf(),
        ensures
            final(self).wf(),
            final(self).spec_counter() == old(self).spec_counter(),
            !old(self).contains(id@) ==> (r matches Err(e) && e.has_code(RpcErrorCode::CollectionNotFound)
                && final(self).spec_records() == old(self).spec_records()),
            old(self).contains(id@) ==> r is Ok && final(self).spec_records() == old(self).spec_records().remove(
                old(self).index_of(id@),
            ),
    {
        let k = match self.find(id) {
            Some(k) => k,
            None => return Err(collection_not_found(id)),
        };
        let ghost before = self.collections@;
        let _ = self.collections.remove(k);
        proof {
            let s = self.collections@;
            assert forall|i: int, j: int| 0 <= i < j < s.len() implies (#[trigger] s[i]).id@ != (#[trigger] s[j]).id@ by {
                if i >= k {
                    assert(s[i] == before[i + 1]);
                }
                if j >= k {
                    assert(s[j] == before[j + 1]);
                }
            }
        }
        Ok(())
    }
}

} // verus!
