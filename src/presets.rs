//! Presets: built-in and workspace hat files plus collections, each class
//! ordered by name then id, the classes in that order.
use vstd::prelude::*;

use crate::collections::CollectionSummary;
use crate::ordering::{sort_by_name_id, sorted_by_name_id, NamedById};

verus! {

/// One preset.
#[derive(Debug, Clone)]
pub struct PresetRecord {
    pub id: String,
    pub name: String,
    pub source: String,
    pub description: Option<String>,
    pub path: Option<String>,
}

fn clone_opt(o: &Option<String>) -> (r: Option<String>)
    ensures
        r == *o,
{
    match o {
        Some(s) => Some(s.clone()),
        None => None,
    }
}

impl PresetRecord {
    pub fn copy(&self) -> (r: PresetRecord)
        ensures
            r == *self,
    {
        PresetRecord {
            id: self.id.clone(),
            name: self.name.clone(),
            source: self.source.clone(),
            description: clone_opt(&self.description),
            path: clone_opt(&self.path),
        }
    }
}

impl NamedById for PresetRecord {
    open spec fn key_name(&self) -> Seq<char> {
        self.name@
    }

    open spec fn key_id(&self) -> Seq<char> {
        self.id@
    }

    fn name_str(&self) -> (r: &str) {
        self.name.as_str()
    }

    fn id_str(&self) -> (r: &str) {
        self.id.as_str()
    }

    fn duplicate(&self) -> (r: Self) {
        self.copy()
    }
}

/// The preset of a collection.
pub fn collection_preset(c: &CollectionSummary) -> (r: PresetRecord)
    ensures
        r.id == c.id,
        r.name == c.name,
        r.source@ == "collection"@,
        r.description == c.description,
        r.path is None,
{
    PresetRecord {
        id: c.id.clone(),
        name: c.name.clone(),
        source: "collection".to_owned(),
        description: clone_opt(&c.description),
        path: None,
    }
}

/// The preset of a hat file named `<stem>.yml`: its id is `<source>:<stem>`.
pub fn file_preset(source: &str, stem: &str, description: Option<String>, path: Option<String>) -> (r: PresetRecord)
    ensures
        r.id@ == source@ + ":"@ + stem@,
        r.name@ == stem@,
        r.source@ == source@,
        r.description == description,
        r.path == path,
{
    let mut id = source.to_owned();
    id.append(":");
    id.append(stem);
    PresetRecord { id, name: stem.to_owned(), source: source.to_owned(), description, path }
}

/// Whether `p` stands for collection `c`.
pub open spec fn preset_for(p: PresetRecord, c: CollectionSummary) -> bool {
    &&& p.id == c.id
    &&& p.name == c.name
    &&& p.description == c.description
    &&& p.source@ == "collection"@
    &&& p.path is None
}

/// Whether collection `c` has a preset among `ps`.
pub open spec fn has_preset(ps: Seq<PresetRecord>, c: CollectionSummary) -> bool {
    exists|i: int| 0 <= i < ps.len() && preset_for(ps[i], c)
}

/// Where presets are found.
#[derive(Debug, Clone)]
pub struct PresetDomain {
    workspace_root: String,
}

impl PresetDomain {
    pub closed spec fn spec_root(&self) -> Seq<char> {
        self.workspace_root@
    }

    pub fn new(workspace_root: &str) -> (r: PresetDomain)
        ensures
            r.spec_root() == workspace_root@,
    {
        PresetDomain { workspace_root: workspace_root.to_owned() }
    }

    /// The directory of built-in presets.
    pub fn builtin_dir(&self) -> (r: String)
        ensures
            r@ == self.spec_root() + "/presets"@,
    {
        let mut d = self.workspace_root.clone();
        d.append("/presets");
        d
    }

    /// The directory of the workspace's own hat files.
    pub fn hats_dir(&self) -> (r: String)
        ensures
            r@ == self.spec_root() + "/.ralph/hats"@,
    {
        let mut d = self.workspace_root.clone();
        d.append("/.ralph/hats");
        d
    }

    /// Every preset: built-in files, then workspace files, then collections,
    /// each class ordered by name then id.
    pub fn list(&self, builtin: &Vec<PresetRecord>, directory: &Vec<PresetRecord>, collections: &Vec<CollectionSummary>) -> (r: Vec<
        PresetRecord,
    >)
        ensures
            r@.len() == builtin@.len() + directory@.len() + collections@.len(),
            sorted_by_name_id(r@.subrange(0, builtin@.len() as int)),
            r@.subrange(0, builtin@.len() as int).to_multiset() == builtin@.to_multiset(),
            sorted_by_name_id(r@.subrange(builtin@.len() as int, (builtin@.len() + directory@.len()) as int)),
            r@.subrange(builtin@.len() as int, (builtin@.len() + directory@.len()) as int).to_multiset()
                == directory@.to_multiset(),
            sorted_by_name_id(r@.subrange((builtin@.len() + directory@.len()) as int, r@.len() as int)),
            forall|i: int|
                (builtin@.len() + directory@.len()) as int <= i < r@.len() ==> (#[trigger] r@[i]).source@ == "collection"@,
            forall|i: int|
                (builtin@.len() + directory@.len()) as int <= i < r@.len() ==> exists|j: int|
                    0 <= j < collections@.len() && (#[trigger] r@[i]).id == collections@[j].id && r@[i].name
                        == collections@[j].name && r@[i].description == collections@[j].description
                        && r@[i].path is None,
            forall|j: int|
                0 <= j < collections@.len() ==> has_preset(
                    r@.subrange((builtin@.len() + directory@.len()) as int, r@.len() as int),
                    #[trigger] collections@[j],
                ),
    {
        broadcast use vstd::seq_lib::group_to_multiset_ensures;

        let mut from_collections: Vec<PresetRecord> = Vec::new();
        let mut i: usize = 0;
        while i < collections.len()
            invariant
                0 <= i <= collections@.len(),
                from_collections@.len() == i,
                forall|j: int| 0 <= j < i ==> (#[trigger] from_collections@[j]).source@ == "collection"@,
                forall|j: int|
                    0 <= j < i ==> (#[trigger] from_collections@[j]).id == collections@[j].id && from_collections@[j].name
                        == collections@[j].name && from_collections@[j].description == collections@[j].description
                        && from_collections@[j].path is None,
            decreases collections@.len() - i,
        {
            from_collections.push(collection_preset(&collections[i]));
            i = i + 1;
        }
        let a = sort_by_name_id(builtin);
        let b = sort_by_name_id(directory);
        let c = sort_by_name_id(&from_collections);
        proof {
            assert(c@.len() == from_collections@.len()) by {
                assert(c@.to_multiset().len() == from_collections@.to_multiset().len());
            }
            assert(a@.len() == builtin@.len()) by {
                assert(a@.to_multiset().len() == builtin@.to_multiset().len());
            }
            assert(b@.len() == directory@.len()) by {
                assert(b@.to_multiset().len() == directory@.to_multiset().len());
            }
            assert forall|j: int| 0 <= j < c@.len() implies (#[trigger] c@[j]).source@ == "collection"@ && exists|m: int|
                0 <= m < collections@.len() && c@[j].id == collections@[m].id && c@[j].name == collections@[m].name
                    && c@[j].description == collections@[m].description && c@[j].path is None by {
                assert(c@.to_multiset().contains(c@[j]));
                assert(from_collections@.to_multiset().contains(c@[j]));
                assert(from_collections@.contains(c@[j]));
                let m = choose|m: int| 0 <= m < from_collections@.len() && from_collections@[m] == c@[j];
                assert(from_collections@[m].id == collections@[m].id);
            }
        }
        let mut out: Vec<PresetRecord> = Vec::new();
        let mut k: usize = 0;
        while k < a.len()
            invariant
                0 <= k <= a@.len(),
                out@ == a@.subrange(0, k as int),
            decreases a@.len() - k,
        {
            out.push(a[k].copy());
            assert(out@ =~= a@.subrange(0, k + 1));
            k = k + 1;
        }
        assert(a@.subrange(0, k as int) =~= a@);
        assert(out@ =~= a@ + b@.subrange(0, 0));
        let mut k: usize = 0;
        while k < b.len()
            invariant
                0 <= k <= b@.len(),
                out@ == a@ + b@.subrange(0, k as int),
            decreases b@.len() - k,
        {
            out.push(b[k].copy());
            assert(out@ =~= a@ + b@.subrange(0, k + 1));
            k = k + 1;
        }
        assert(b@.subrange(0, k as int) =~= b@);
        assert(out@ =~= a@ + b@ + c@.subrange(0, 0));
        let mut k: usize = 0;
        while k < c.len()
            invariant
                0 <= k <= c@.len(),
                out@ == a@ + b@ + c@.subrange(0, k as int),
            decreases c@.len() - k,
        {
            out.push(c[k].copy());
            assert(out@ =~= a@ + b@ + c@.subrange(0, k + 1));
            k = k + 1;
        }
        assert(c@.subrange(0, k as int) =~= c@);
        proof {
            let s = out@;
            assert forall|j: int| 0 <= j < collections@.len() implies has_preset(c@, #[trigger] collections@[j]) by {
                assert(from_collections@.to_multiset().contains(from_collections@[j]));
                assert(c@.contains(from_collections@[j]));
                let i = choose|i: int| 0 <= i < c@.len() && c@[i] == from_collections@[j];
                assert(preset_for(c@[i], collections@[j]));
            }
            assert(s.subrange(0, a@.len() as int) =~= a@);
            assert(s.subrange(a@.len() as int, (a@.len() + b@.len()) as int) =~= b@);
            assert(s.subrange((a@.len() + b@.len()) as int, s.len() as int) =~= c@);
        }
        out
    }
}

} // verus!
