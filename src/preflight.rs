//! Helpers of the preflight command: check-name normalisation and the label
//! of the configuration sources.
use vstd::prelude::*;


use crate::stream_domain::views;

verus! {

/// What `str::to_lowercase` returns for `s`.
pub uninterp spec fn lower_of(s: Seq<char>) -> Seq<char>;

/// Relies on `str::to_lowercase`: the Unicode lower case of a string, which
/// depends on its characters alone.
#[verifier::external_body]
fn lowercase(s: &str) -> (r: String)
    ensures
        r@ == lower_of(s@),
{
    s.to_lowercase()
}

/// The check names in lower case, in order.
pub fn normalize_checks(checks: &Vec<String>) -> (r: Vec<String>)
    ensures
        r@.len() == checks@.len(),
        forall|i: int| 0 <= i < checks@.len() ==> (#[trigger] r@[i])@ == lower_of(checks@[i]@),
{
    let mut out: Vec<String> = Vec::new();
    let mut i: usize = 0;
    while i < checks.len()
        invariant
            0 <= i <= checks@.len(),
            out@.len() == i,
            forall|j: int| 0 <= j < i ==> (#[trigger] out@[j])@ == lower_of(checks@[j]@),
        decreases checks@.len() - i,
    {
        out.push(lowercase(checks[i].as_str()));
        i = i + 1;
    }
    out
}

/// Where the core configuration came from.
#[derive(Debug, Clone)]
pub enum ConfigSource {
    File(String),
    Builtin(String),
    Remote(String),
    Override { key: String, value: String },
}

/// Where the hats came from.
#[derive(Debug, Clone)]
pub enum HatsSource {
    File(String),
    Builtin(String),
}

/// The path of the configuration file when no source names one.
pub const DEFAULT_CONFIG_PATH: &'static str = "ralph.yml";

/// The first source that is not an override.
pub open spec fn primary_source(s: Seq<ConfigSource>) -> Option<ConfigSource>
    decreases s.len(),
{
    if s.len() == 0 {
        None
    } else if s[0] is Override {
        primary_source(s.drop_first())
    } else {
        Some(s[0])
    }
}

pub open spec fn core_label(p: Option<ConfigSource>) -> Seq<char> {
    match p {
        Some(ConfigSource::File(path)) => path@,
        Some(ConfigSource::Builtin(name)) => "builtin:"@ + name@,
        Some(ConfigSource::Remote(url)) => url@,
        _ => DEFAULT_CONFIG_PATH@,
    }
}

pub open spec fn hats_label(h: HatsSource) -> Seq<char> {
    match h {
        HatsSource::File(path) => path@,
        HatsSource::Builtin(name) => "builtin:"@ + name@,
    }
}

impl HatsSource {
    pub fn label(&self) -> (r: String)
        ensures
            r@ == hats_label(*self),
    {
        match self {
            HatsSource::File(path) => path.clone(),
            HatsSource::Builtin(name) => {
                let mut r = "builtin:".to_owned();
                r.append(name.as_str());
                r
            },
        }
    }
}

/// The label of the configuration in reports: the first non-override
/// source, and the hats source after ` + hats:` when there is one.
pub fn config_source_label(sources: &Vec<ConfigSource>, hats_source: Option<&HatsSource>) -> (r: String)
    ensures
        r@ == (match hats_source {
            Some(h) => core_label(primary_source(sources@)) + " + hats:"@ + hats_label(*h),
            None => core_label(primary_source(sources@)),
        }),
{
    let mut i: usize = 0;
    assert(sources@.subrange(0, sources@.len() as int) =~= sources@);
    while i < sources.len() && matches!(sources[i], ConfigSource::Override { .. })
        invariant
            0 <= i <= sources@.len(),
            primary_source(sources@) == primary_source(sources@.subrange(i as int, sources@.len() as int)),
        decreases sources@.len() - i,
    {
        proof {
            let t = sources@.subrange(i as int, sources@.len() as int);
            assert(t.drop_first() =~= sources@.subrange(i + 1, sources@.len() as int));
        }
        i = i + 1;
    }
    let mut label = if i < sources.len() {
        proof {
            let t = sources@.subrange(i as int, sources@.len() as int);
            assert(t[0] == sources@[i as int]);
        }
        match &sources[i] {
            ConfigSource::File(path) => path.clone(),
            ConfigSource::Builtin(name) => {
                let mut r = "builtin:".to_owned();
                r.append(name.as_str());
                r
            },
            ConfigSource::Remote(url) => url.clone(),
            ConfigSource::Override { .. } => DEFAULT_CONFIG_PATH.to_owned(),
        }
    } else {
        DEFAULT_CONFIG_PATH.to_owned()
    };
    match hats_source {
        Some(h) => {
            label.append(" + hats:");
            let hl = h.label();
            label.append(hl.as_str());
            label
        },
        None => label,
    }
}

/// Two characters that are equal up to ASCII case.
pub open spec fn same_ignoring_case(a: char, b: char) -> bool {
    a == b || ('A' <= a && a <= 'Z' && (a as u32) + 32 == (b as u32)) || ('A' <= b && b <= 'Z' && (b as u32)
        + 32 == (a as u32))
}

/// `str::eq_ignore_ascii_case`.
pub open spec fn eq_ignoring_case(a: Seq<char>, b: Seq<char>) -> bool {
    a.len() == b.len() && forall|i: int| 0 <= i < a.len() ==> same_ignoring_case(#[trigger] a[i], b[i])
}

/// `parts` separated by `, `.
pub open spec fn joined(parts: Seq<Seq<char>>) -> Seq<char>
    decreases parts.len(),
{
    if parts.len() == 0 {
        Seq::empty()
    } else if parts.len() == 1 {
        parts[0]
    } else {
        joined(parts.drop_last()) + ", "@ + parts.last()
    }
}

pub open spec fn known_check(available: Seq<Seq<char>>, c: Seq<char>) -> bool {
    exists|j: int| 0 <= j < available.len() && eq_ignoring_case(#[trigger] available[j], c)
}

pub open spec fn unknown_pred(available: Seq<Seq<char>>) -> spec_fn(Seq<char>) -> bool {
    |c: Seq<char>| !known_check(available, c)
}

fn eq_ignoring_case_str(a: &str, b: &str) -> (r: bool)
    ensures
        r == eq_ignoring_case(a@, b@),
{
    let n = a.unicode_len();
    if n != b.unicode_len() {
        return false;
    }
    let mut i: usize = 0;
    while i < n
        invariant
            n == a@.len(),
            n == b@.len(),
            0 <= i <= n,
            forall|j: int| 0 <= j < i ==> same_ignoring_case(#[trigger] a@[j], b@[j]),
        decreases n - i,
    {
        let x = a.get_char(i);
        let y = b.get_char(i);
        let same = x == y || ('A' <= x && x <= 'Z' && (x as u32) + 32 == (y as u32)) || ('A' <= y && y <= 'Z' && (
        y as u32) + 32 == (x as u32));
        if !same {
            return false;
        }
        i = i + 1;
    }
    true
}

fn join_names(parts: &Vec<String>) -> (r: String)
    ensures
        r@ == joined(views(parts@)),
{
    let mut out = String::new();
    let mut i: usize = 0;
    while i < parts.len()
        invariant
            0 <= i <= parts@.len(),
            out@ == joined(views(parts@.subrange(0, i as int))),
        decreases parts@.len() - i,
    {
        let ghost pre = views(parts@.subrange(0, i as int));
        let ghost next = views(parts@.subrange(0, i + 1));
        assert(next.drop_last() =~= pre);
        assert(next.last() == parts@[i as int]@);
        if i > 0 {
            out.append(", ");
        } else {
            assert(pre.len() == 0);
            assert(out@ =~= Seq::<char>::empty());
        }
        out.append(parts[i].as_str());
        i = i + 1;
    }
    assert(parts@.subrange(0, i as int) =~= parts@);
    out
}

/// Checks the requested check names against the available ones, without
/// regard to ASCII case; the error names every unknown one.
pub fn validate_checks(available: &Vec<String>, checks: &Vec<String>) -> (r: Result<(), String>)
    ensures
        r is Ok <==> views(checks@).filter(unknown_pred(views(available@))).len() == 0,
        r matches Err(m) ==> m@ == "Unknown check(s): "@ + joined(views(checks@).filter(unknown_pred(views(available@))))
            + ". Available checks: "@ + joined(views(available@)),
{
    let ghost avail = views(available@);
    let ghost pred = unknown_pred(avail);
    let mut unknown: Vec<String> = Vec::new();
    let mut i: usize = 0;
    while i < checks.len()
        invariant
            avail == views(available@),
            pred == unknown_pred(avail),
            0 <= i <= checks@.len(),
            views(unknown@) == views(checks@.subrange(0, i as int)).filter(pred),
        decreases checks@.len() - i,
    {
        let mut found = false;
        let mut j: usize = 0;
        while j < available.len()
            invariant
                avail == views(available@),
                0 <= j <= available@.len(),
                i < checks@.len(),
                found == exists|k: int| 0 <= k < j && eq_ignoring_case(#[trigger] avail[k], checks@[i as int]@),
            decreases available@.len() - j,
        {
            if !found && eq_ignoring_case_str(available[j].as_str(), checks[i].as_str()) {
                found = true;
                assert(eq_ignoring_case(avail[j as int], checks@[i as int]@));
            }
            j = j + 1;
        }
        let ghost before = unknown@;
        if !found {
            unknown.push(checks[i].clone());
        }
        proof {
            reveal(Seq::filter);
            let full = views(checks@.subrange(0, i + 1));
            assert(full.drop_last() =~= views(checks@.subrange(0, i as int)));
            assert(full.last() == checks@[i as int]@);
            if !found {
                assert(views(unknown@) =~= views(before).push(checks@[i as int]@));
            }
        }
        i = i + 1;
    }
    assert(checks@.subrange(0, i as int) =~= checks@);
    if unknown.len() == 0 {
        return Ok(());
    }
    let mut m = "Unknown check(s): ".to_owned();
    let u = join_names(&unknown);
    m.append(u.as_str());
    m.append(". Available checks: ");
    let a = join_names(available);
    m.append(a.as_str());
    Err(m)
}

} // verus!
