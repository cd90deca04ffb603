//! The rules of the planning domain that guard the file system: session ids,
//! artifact names and the kinds of entries that may be served, plus the
//! derived title and display status of a session.
use vstd::prelude::*;

use crate::errors::{ApiError, RpcErrorCode};
use crate::text::{is_ascii_alnum, str_eq, trim, trim_str};

verus! {

/// The longest session id.
pub const MAX_SESSION_ID_LEN: usize = 120;

/// The longest artifact name.
pub const MAX_ARTIFACT_NAME_LEN: usize = 255;

pub open spec fn session_char(c: char) -> bool {
    is_ascii_alnum(c) || c == '-' || c == '_'
}

/// A session id: 1 to 120 of `[A-Za-z0-9_-]`.
pub open spec fn session_id_ok(s: Seq<char>) -> bool {
    1 <= s.len() <= MAX_SESSION_ID_LEN && forall|i: int| 0 <= i < s.len() ==> session_char(#[trigger] s[i])
}

/// A plain file name: one path component that is neither `.` nor `..`.
pub open spec fn plain_name(s: Seq<char>) -> bool {
    s.len() > 0 && !s.contains('/') && s != "."@ && s != ".."@
}

pub open spec fn artifact_char(c: char) -> bool {
    is_ascii_alnum(c) || c == '.' || c == '_' || c == '-'
}

/// An artifact name that may be listed and served: `^[A-Za-z0-9._-]+$`, at
/// most 255 long, not starting with a dot.
pub open spec fn listed_name(s: Seq<char>) -> bool {
    &&& 0 < s.len() <= MAX_ARTIFACT_NAME_LEN
    &&& s[0] != '.'
    &&& forall|i: int| 0 <= i < s.len() ==> artifact_char(#[trigger] s[i])
    &&& plain_name(s)
}

/// What a directory entry is, without following links.
#[derive(Debug, Clone, Copy, PartialEq, Eq, Structural)]
pub enum EntryKind {
    File,
    Directory,
    Symlink,
    Other,
}

fn all_chars(s: &str, artifact: bool) -> (r: bool)
    ensures
        r == (forall|i: int|
            0 <= i < s@.len() ==> if artifact {
                artifact_char(#[trigger] s@[i])
            } else {
                session_char(s@[i])
            }),
{
    let n = s.unicode_len();
    let mut i: usize = 0;
    while i < n
        invariant
            n == s@.len(),
            0 <= i <= n,
            forall|j: int|
                0 <= j < i ==> if artifact {
                    artifact_char(#[trigger] s@[j])
                } else {
                    session_char(s@[j])
                },
        decreases n - i,
    {
        let c = s.get_char(i);
        let alnum = ('a' <= c && c <= 'z') || ('A' <= c && c <= 'Z') || ('0' <= c && c <= '9');
        let ok = if artifact {
            alnum || c == '.' || c == '_' || c == '-'
        } else {
            alnum || c == '-' || c == '_'
        };
        if !ok {
            return false;
        }
        i = i + 1;
    }
    true
}

/// Checks a session id; anything else is invalid-params.
pub fn validate_session_id(session_id: &str) -> (r: Result<(), ApiError>)
    ensures
        r is Ok <==> session_id_ok(session_id@),
        r matches Err(e) ==> e.has_code(RpcErrorCode::InvalidParams) && e.detail_text("sessionId"@) == Some(
            session_id@,
        ),
{
    let n = session_id.unicode_len();
    if n == 0 || n > MAX_SESSION_ID_LEN {
        return Err(
            ApiError::invalid_params("planning session id must be 1..=120 characters".to_owned()).with_text(
                "sessionId",
                session_id,
            ),
        );
    }
    if !all_chars(session_id, false) {
        return Err(
            ApiError::invalid_params(
                "planning session id may only contain ASCII letters, digits, '-' or '_'".to_owned(),
            ).with_text("sessionId", session_id),
        );
    }
    Ok(())
}

/// Whether `filename` is not a plain file name.
pub fn is_invalid_filename(filename: &str) -> (r: bool)
    ensures
        r == !plain_name(filename@),
{
    proof {
        reveal_strlit(".");
        reveal_strlit("..");
    }
    let n = filename.unicode_len();
    if n == 0 {
        return true;
    }
    let mut i: usize = 0;
    while i < n
        invariant
            n == filename@.len(),
            0 <= i <= n,
            forall|j: int| 0 <= j < i ==> filename@[j] != '/',
        decreases n - i,
    {
        if filename.get_char(i) == '/' {
            return true;
        }
        i = i + 1;
    }
    str_eq(filename, ".") || str_eq(filename, "..")
}

/// Whether an artifact name may be listed and served.
pub fn is_listed_artifact_name(filename: &str) -> (r: bool)
    ensures
        r == listed_name(filename@),
{
    let n = filename.unicode_len();
    n > 0 && filename.get_char(0) != '.' && n <= MAX_ARTIFACT_NAME_LEN && all_chars(filename, true)
        && !is_invalid_filename(filename)
}

/// The checks on a `planning.get_artifact` request made before the file
/// system is touched.
pub fn check_artifact_request(session_id: &str, filename: &str) -> (r: Result<(), ApiError>)
    ensures
        !session_id_ok(session_id@) ==> (r matches Err(e) && e.has_code(RpcErrorCode::InvalidParams)),
        session_id_ok(session_id@) && !plain_name(filename@) ==> (r matches Err(e) && e.has_code(RpcErrorCode::InvalidParams)),
        session_id_ok(session_id@) && plain_name(filename@) && !listed_name(filename@) ==> (r matches Err(e)
            && e.has_code(RpcErrorCode::NotFound)),
        r is Ok <==> session_id_ok(session_id@) && listed_name(filename@),
{
    validate_session_id(session_id)?;
    if is_invalid_filename(filename) {
        return Err(
            ApiError::invalid_params("planning.get_artifact filename must be a plain file name".to_owned()),
        );
    }
    if !is_listed_artifact_name(filename) {
        return Err(artifact_not_found(session_id, filename));
    }
    Ok(())
}

fn artifact_not_found(session_id: &str, filename: &str) -> (r: ApiError)
    ensures
        r.has_code(RpcErrorCode::NotFound),
{
    let mut m = "artifact '".to_owned();
    m.append(filename);
    m.append("' not found for planning session '");
    m.append(session_id);
    m.append("'");
    ApiError::not_found(m)
}

/// The checks on what the file system holds for an artifact: the session
/// must exist, and the entry must be a regular file; links, directories and
/// devices are not found.
pub fn check_artifact_entry(session_id: &str, filename: &str, session_exists: bool, entry: Option<EntryKind>) -> (r: Result<(), ApiError>)
    ensures
        !session_exists ==> (r matches Err(e) && e.has_code(RpcErrorCode::PlanningSessionNotFound)),
        session_exists && entry != Some(EntryKind::File) ==> (r matches Err(e) && e.has_code(RpcErrorCode::NotFound)),
        r is Ok <==> session_exists && entry == Some(EntryKind::File),
{
    if !session_exists {
        let mut m = "Planning session '".to_owned();
        m.append(session_id);
        m.append("' not found");
        return Err(ApiError::planning_session_not_found(m).with_text("sessionId", session_id));
    }
    match entry {
        Some(EntryKind::File) => Ok(()),
        _ => Err(artifact_not_found(session_id, filename)),
    }
}

/// The status shown to clients: `waiting_for_input` is shown as `paused`.
pub fn to_frontend_status(status: &str) -> (r: String)
    ensures
        r@ == (if status@ == "waiting_for_input"@ {
            "paused"@
        } else {
            status@
        }),
{
    if str_eq(status, "waiting_for_input") {
        "paused".to_owned()
    } else {
        status.to_owned()
    }
}

/// A session title from its prompt: the trimmed prompt, cut to 57
/// characters and an ellipsis when longer than 60.
pub fn generate_title(prompt: &str) -> (r: String)
    ensures
        r@ == (if trim(prompt@).len() <= 60 {
            trim(prompt@)
        } else {
            trim(prompt@).subrange(0, 57) + "..."@
        }),
{
    let t = trim_str(prompt);
    let n = t.unicode_len();
    if n <= 60 {
        return t.to_owned();
    }
    let mut r = t.substring_char(0, 57).to_owned();
    r.append("...");
    r
}

/// Every session id that passes is made of safe characters
/// only, so it can never name a parent directory or an absolute path.
pub proof fn lemma_session_id_path_safe(s: Seq<char>)
    requires
        session_id_ok(s),
    ensures
        !s.contains('/'),
        !s.contains('.'),
        s.len() <= MAX_SESSION_ID_LEN,
{
    if s.contains('/') {
        let i = choose|i: int| 0 <= i < s.len() && s[i] == '/';
        assert(session_char(s[i]));
    }
    if s.contains('.') {
        let i = choose|i: int| 0 <= i < s.len() && s[i] == '.';
        assert(session_char(s[i]));
    }
}

/// A listed artifact name is never a dotfile and never leaves the
/// artifacts directory.
pub proof fn lemma_listed_name_safe(s: Seq<char>)
    requires
        listed_name(s),
    ensures
        s[0] != '.',
        !s.contains('/'),
{
}

/// What `planning.start` asks for.
#[derive(Debug, Clone)]
pub struct PlanningStartParams {
    pub prompt: String,
}

/// What `planning.respond` asks for.
#[derive(Debug, Clone)]
pub struct PlanningRespondParams {
    pub session_id: String,
    pub prompt_id: String,
    pub response: String,
}

/// What `planning.get_artifact` asks for.
#[derive(Debug, Clone)]
pub struct PlanningGetArtifactParams {
    pub session_id: String,
    pub filename: String,
}

/// One session in a listing.
#[derive(Debug, Clone)]
pub struct PlanningSessionSummary {
    pub id: String,
    pub title: String,
    pub prompt: String,
    pub status: String,
    pub created_at: String,
    pub updated_at: String,
    pub message_count: u64,
    pub iterations: u64,
}

/// A session with its conversation and artifacts.
#[derive(Debug, Clone)]
pub struct PlanningSessionDetail {
    pub id: String,
    pub prompt: String,
    pub title: String,
    pub status: String,
    pub created_at: String,
    pub updated_at: String,
    pub completed_at: Option<String>,
    pub conversation: Vec<FrontendConversationEntry>,
    pub artifacts: Vec<String>,
    pub message_count: u64,
    pub iterations: u64,
}

/// The stored metadata of a session.
#[derive(Debug, Clone)]
pub struct PlanningSessionRecord {
    pub id: String,
    pub prompt: String,
    pub status: String,
    pub created_at: String,
    pub updated_at: String,
    pub iterations: u64,
}

/// An artifact and its content.
#[derive(Debug, Clone)]
pub struct ArtifactRecord {
    pub filename: String,
    pub content: String,
}

/// One line of a session's conversation journal.
#[derive(Debug, Clone)]
pub struct ConversationEntry {
    pub entry_type: String,
    pub id: String,
    pub text: String,
    pub ts: String,
}

/// A conversation entry as clients see it.
#[derive(Debug, Clone)]
pub struct FrontendConversationEntry {
    pub entry_type: String,
    pub id: String,
    pub content: String,
    pub timestamp: String,
}

/// How clients see a journal entry: user prompts are `prompt`, everything
/// else is `response`.
pub open spec fn frontend_type(entry_type: Seq<char>) -> Seq<char> {
    if entry_type == "user_prompt"@ {
        "prompt"@
    } else {
        "response"@
    }
}

pub fn to_frontend_entry(e: &ConversationEntry) -> (r: FrontendConversationEntry)
    ensures
        r.entry_type@ == frontend_type(e.entry_type@),
        r.id == e.id,
        r.content == e.text,
        r.timestamp == e.ts,
{
    FrontendConversationEntry {
        entry_type: if str_eq(e.entry_type.as_str(), "user_prompt") {
            "prompt".to_owned()
        } else {
            "response".to_owned()
        },
        id: e.id.clone(),
        content: e.text.clone(),
        timestamp: e.ts.clone(),
    }
}

/// Where planning sessions live, and what their records become.
#[derive(Debug, Clone)]
pub struct PlanningDomain {
    sessions_dir: String,
}

fn copy_record(r: &PlanningSessionRecord) -> (o: PlanningSessionRecord)
    ensures
        o == *r,
{
    PlanningSessionRecord {
        id: r.id.clone(),
        prompt: r.prompt.clone(),
        status: r.status.clone(),
        created_at: r.created_at.clone(),
        updated_at: r.updated_at.clone(),
        iterations: r.iterations,
    }
}

fn session_not_found(session_id: &str) -> (r: ApiError)
    ensures
        r.has_code(RpcErrorCode::PlanningSessionNotFound),
{
    let mut m = "Planning session '".to_owned();
    m.append(session_id);
    m.append("' not found");
    ApiError::planning_session_not_found(m).with_text("sessionId", session_id)
}

impl PlanningDomain {
    pub closed spec fn spec_dir(&self) -> Seq<char> {
        self.sessions_dir@
    }

    /// Sessions live under `<workspace>/.ralph/planning-sessions`.
    pub fn new(workspace_root: &str) -> (r: PlanningDomain)
        ensures
            r.spec_dir() == workspace_root@ + "/.ralph/planning-sessions"@,
    {
        let mut d = workspace_root.to_owned();
        d.append("/.ralph/planning-sessions");
        PlanningDomain { sessions_dir: d }
    }

    /// The directory of a session.
    pub fn session_dir(&self, session_id: &str) -> (r: String)
        ensures
            r@ == self.spec_dir() + "/"@ + session_id@,
    {
        let mut d = self.sessions_dir.clone();
        d.append("/");
        d.append(session_id);
        d
    }

    /// The directory `planning.delete` removes; an id that is not a plain
    /// session id is refused before any path is formed.
    pub fn delete_target(&self, session_id: &str) -> (r: Result<String, ApiError>)
        ensures
            r is Ok <==> session_id_ok(session_id@),
            r matches Ok(d) ==> d@ == self.spec_dir() + "/"@ + session_id@,
            r matches Err(e) ==> e.has_code(RpcErrorCode::InvalidParams) && e.detail_text("sessionId"@) == Some(
                session_id@,
            ),
    {
        validate_session_id(session_id)?;
        Ok(self.session_dir(session_id))
    }

    /// The metadata file of a session.
    pub fn metadata_path(&self, session_id: &str) -> (r: String)
        ensures
            r@ == self.spec_dir() + "/"@ + session_id@ + "/session.json"@,
    {
        let mut d = self.session_dir(session_id);
        d.append("/session.json");
        d
    }

    /// The conversation journal of a session.
    pub fn conversation_path(&self, session_id: &str) -> (r: String)
        ensures
            r@ == self.spec_dir() + "/"@ + session_id@ + "/conversation.jsonl"@,
    {
        let mut d = self.session_dir(session_id);
        d.append("/conversation.jsonl");
        d
    }

    /// A session's detail from its stored record, journal and artifact names.
    pub fn get(
        &self,
        session_id: &str,
        metadata: Option<PlanningSessionRecord>,
        conversation: &Vec<ConversationEntry>,
        artifacts: Vec<String>,
    ) -> (r: Result<PlanningSessionDetail, ApiError>)
        ensures
            !session_id_ok(session_id@) ==> (r matches Err(e) && e.has_code(RpcErrorCode::InvalidParams)),
            session_id_ok(session_id@) && metadata is None ==> (r matches Err(e) && e.has_code(RpcErrorCode::PlanningSessionNotFound)),
            session_id_ok(session_id@) && metadata is Some ==> (r matches Ok(d) && d.id == metadata.unwrap().id
                && d.prompt == metadata.unwrap().prompt && d.title@ == (if trim(metadata.unwrap().prompt@).len()
                <= 60 {
                trim(metadata.unwrap().prompt@)
            } else {
                trim(metadata.unwrap().prompt@).subrange(0, 57) + "..."@
            }) && d.status@ == (if metadata.unwrap().status@ == "waiting_for_input"@ {
                "paused"@
            } else {
                metadata.unwrap().status@
            }) && d.completed_at == (if metadata.unwrap().status@ == "completed"@ {
                Some(metadata.unwrap().updated_at)
            } else {
                None
            }) && d.conversation@.len() == conversation@.len() && (forall|j: int|
                0 <= j < conversation@.len() ==> (#[trigger] d.conversation@[j]).entry_type@ == frontend_type(
                    conversation@[j].entry_type@,
                ) && d.conversation@[j].id == conversation@[j].id && d.conversation@[j].content
                    == conversation@[j].text && d.conversation@[j].timestamp == conversation@[j].ts)
                && d.created_at == metadata.unwrap().created_at && d.updated_at == metadata.unwrap().updated_at
                && d.message_count == conversation@.len()
                && d.artifacts == artifacts && d.iterations == metadata.unwrap().iterations),
    {
        validate_session_id(session_id)?;
        let m = match metadata {
            Some(m) => m,
            None => return Err(session_not_found(session_id)),
        };
        let mut entries: Vec<FrontendConversationEntry> = Vec::new();
        let mut i: usize = 0;
        while i < conversation.len()
            invariant
                0 <= i <= conversation@.len(),
                entries@.len() == i,
                forall|j: int|
                    0 <= j < i ==> (#[trigger] entries@[j]).entry_type@ == frontend_type(conversation@[j].entry_type@)
                        && entries@[j].id == conversation@[j].id && entries@[j].content == conversation@[j].text
                        && entries@[j].timestamp == conversation@[j].ts,
            decreases conversation@.len() - i,
        {
            entries.push(to_frontend_entry(&conversation[i]));
            i = i + 1;
        }
        let completed_at = if str_eq(m.status.as_str(), "completed") {
            Some(m.updated_at.clone())
        } else {
            None
        };
        let n = entries.len();
        let title = generate_title(m.prompt.as_str());
        let status = to_frontend_status(m.status.as_str());
        Ok(
            PlanningSessionDetail {
                id: m.id,
                prompt: m.prompt,
                title,
                status,
                created_at: m.created_at,
                updated_at: m.updated_at,
                completed_at,
                conversation: entries,
                artifacts,
                message_count: n as u64,
                iterations: m.iterations,
            },
        )
    }

    /// Records a user response: the journal entry to append and the session
    /// record, active again, to store.
    pub fn respond(
        &self,
        params: PlanningRespondParams,
        metadata: Option<PlanningSessionRecord>,
        now: String,
    ) -> (r: Result<(PlanningSessionRecord, ConversationEntry), ApiError>)
        ensures
            !session_id_ok(params.session_id@) ==> (r matches Err(e) && e.has_code(RpcErrorCode::InvalidParams)),
            session_id_ok(params.session_id@) && metadata is None ==> (r matches Err(e) && e.has_code(RpcErrorCode::PlanningSessionNotFound)),
            session_id_ok(params.session_id@) && metadata is Some ==> (r matches Ok(x) && x.0.status@ == "active"@
                && x.0.updated_at == now && x.0.id == metadata.unwrap().id && x.0.prompt == metadata.unwrap().prompt
                && x.0.created_at == metadata.unwrap().created_at && x.0.iterations == metadata.unwrap().iterations
                && x.1.entry_type@ == "user_response"@ && x.1.id == params.prompt_id && x.1.text == params.response
                && x.1.ts == now),
    {
        validate_session_id(params.session_id.as_str())?;
        let mut m = match metadata {
            Some(m) => m,
            None => return Err(session_not_found(params.session_id.as_str())),
        };
        let entry = ConversationEntry {
            entry_type: "user_response".to_owned(),
            id: params.prompt_id,
            text: params.response,
            ts: now.clone(),
        };
        m.status = "active".to_owned();
        m.updated_at = now;
        Ok((m, entry))
    }

    /// Makes a session active again; returns the record to store.
    pub fn resume(&self, session_id: &str, metadata: Option<PlanningSessionRecord>, now: String) -> (r: Result<
        PlanningSessionRecord,
        ApiError,
    >)
        ensures
            !session_id_ok(session_id@) ==> (r matches Err(e) && e.has_code(RpcErrorCode::InvalidParams)),
            session_id_ok(session_id@) && metadata is None ==> (r matches Err(e) && e.has_code(RpcErrorCode::PlanningSessionNotFound)),
            session_id_ok(session_id@) && metadata is Some ==> (r matches Ok(x) && x.status@ == "active"@
                && x.updated_at == now && x.id == metadata.unwrap().id && x.prompt == metadata.unwrap().prompt
                && x.created_at == metadata.unwrap().created_at && x.iterations == metadata.unwrap().iterations),
    {
        validate_session_id(session_id)?;
        let mut m = match metadata {
            Some(m) => m,
            None => return Err(session_not_found(session_id)),
        };
        m.status = "active".to_owned();
        m.updated_at = now;
        Ok(m)
    }

    /// The summary of a stored session.
    pub fn summary(&self, record: &PlanningSessionRecord, message_count: u64) -> (r: PlanningSessionSummary)
        ensures
            r.id == record.id,
            r.prompt == record.prompt,
            r.status@ == (if record.status@ == "waiting_for_input"@ {
                "paused"@
            } else {
                record.status@
            }),
            r.message_count == message_count,
            r.iterations == record.iterations,
    {
        let rec = copy_record(record);
        PlanningSessionSummary {
            id: rec.id,
            title: generate_title(record.prompt.as_str()),
            prompt: rec.prompt,
            status: to_frontend_status(record.status.as_str()),
            created_at: rec.created_at,
            updated_at: rec.updated_at,
            message_count,
            iterations: rec.iterations,
        }
    }
}

} // verus!
