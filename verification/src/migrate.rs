//! Relocating a saved session from one project directory to another: the
//! project-directory naming scheme and the edits to the two persisted
//! session indexes.  Reading, writing and moving the files themselves is
//! the surrounding application's job; the index bookkeeping is checked
//! here.

use vstd::prelude::*;

use crate::model::{Session, SessionProvider};
use crate::text::push_char;

verus! {

/// One entry of a persisted per-project session index.
#[derive(Debug, Clone)]
pub struct SessionIndexEntry {
    pub session_id: String,
    pub full_path: String,
    pub project_path: String,
    pub git_branch: Option<String>,
    pub summary: Option<String>,
    pub first_prompt: Option<String>,
    /// An RFC 3339 date-and-time text.
    pub modified: String,
    pub message_count: Option<i64>,
}

/// A filesystem path turned into a project directory name: every path
/// separator becomes a dash.
pub open spec fn dashed(s: Seq<char>) -> Seq<char> {
    s.map_values(
        |c: char|
            if c == '/' {
                '-'
            } else {
                c
            },
    )
}

/// Convert a filesystem path to the project directory name its sessions
/// are filed under.
pub fn path_to_project_dir(path: &str) -> (r: String)
    ensures
        r@ == dashed(path@),
{
    let n = path.unicode_len();
    let mut out = String::new();
    let mut i: usize = 0;
    while i < n
        invariant
            i <= n,
            n == path@.len(),
            out@.len() == i,
            forall|j: int| 0 <= j < i ==> out@[j] == dashed(path@)[j],
        decreases n - i,
    {
        let c = path.get_char(i);
        if c == '/' {
            push_char(&mut out, '-');
        } else {
            push_char(&mut out, c);
        }
        i = i + 1;
    }
    proof {
        assert(out@ =~= dashed(path@));
    }
    out
}

/// Move the entry for `session_id` from the source index to the end of
/// the target index, repointing it at the target project.  Returns
/// whether an entry was found; nothing changes when none is.  Moving the
/// transcript file itself is the caller's job.
pub fn migrate_index(
    source: &mut Vec<SessionIndexEntry>,
    target: &mut Vec<SessionIndexEntry>,
    session_id: &String,
    new_project_path: String,
    new_full_path: String,
) -> (found: bool)
    ensures
        found == (exists|i: int|
            0 <= i < old(source)@.len() && (#[trigger] old(source)@[i].session_id)@
                == session_id@),
        !found ==> final(source)@ == old(source)@ && final(target)@ == old(target)@,
        found ==> exists|i: int|
            {
                &&& 0 <= i < old(source)@.len()
                &&& (#[trigger] old(source)@[i].session_id)@ == session_id@
                &&& forall|j: int|
                    0 <= j < i ==> (#[trigger] old(source)@[j].session_id)@ != session_id@
                &&& final(source)@ == old(source)@.remove(i)
                &&& final(target)@ == old(target)@.push(
                    (SessionIndexEntry {
                        project_path: new_project_path,
                        full_path: new_full_path,
                        ..old(source)@[i]
                    }),
                )
            },
{
    let n = source.len();
    let mut i: usize = 0;
    while i < n
        invariant
            n == source@.len(),
            source@ == old(source)@,
            target@ == old(target)@,
            i <= n,
            forall|j: int| 0 <= j < i ==> (#[trigger] source@[j].session_id)@ != session_id@,
        decreases n - i,
    {
        if source[i].session_id == *session_id {
            let mut entry = source.remove(i);
            entry.project_path = new_project_path;
            entry.full_path = new_full_path;
            target.push(entry);
            return true;
        }
        i = i + 1;
    }
    false
}

/// Relies on chrono's DateTime::parse_from_rfc3339 followed by
/// timestamp_millis: which texts parse, and to which epoch-millisecond
/// value, depends on the text alone.
pub uninterp spec fn rfc3339_millis_of(s: Seq<char>) -> Option<int>;

/// Relies on chrono's DateTime::parse_from_rfc3339 and timestamp_millis,
/// under the name `rfc3339_millis_of`.
#[verifier::external_body]
fn parse_rfc3339_millis(s: &str) -> (r: Option<i64>)
    ensures
        (r is Some) == (rfc3339_millis_of(s@) is Some),
        r matches Some(v) ==> rfc3339_millis_of(s@) == Some(v as int),
{
    chrono::DateTime::parse_from_rfc3339(s).ok().map(|dt| dt.timestamp_millis())
}

/// The timestamp a persisted entry carries: its RFC 3339 text parsed to
/// epoch milliseconds, or 0 when it does not parse.
pub open spec fn modified_millis(s: Seq<char>) -> int {
    match rfc3339_millis_of(s) {
        Some(v) => v,
        None => 0,
    }
}

/// The session a persisted index entry describes.
pub open spec fn session_of_entry(s: Session, e: SessionIndexEntry) -> bool {
    &&& s.uuid == e.session_id
    &&& s.project_path == e.project_path
    &&& s.git_branch == e.git_branch
    &&& s.summary == e.summary
    &&& s.first_prompt == e.first_prompt
    &&& s.modified as int == modified_millis(e.modified@)
    &&& s.message_count == e.message_count
    &&& s.provider == SessionProvider::Assistant
}

/// Turn the entries of one persisted session index into sessions,
/// parsing each entry's modification time (0 when it does not parse).
pub fn sessions_from_index_entries(entries: Vec<SessionIndexEntry>) -> (r: Vec<Session>)
    ensures
        r@.len() == entries@.len(),
        forall|i: int|
            0 <= i < entries@.len() ==> session_of_entry(#[trigger] r@[i], entries@[i]),
{
    let ghost e0 = entries@;
    let mut entries = entries;
    let mut out: Vec<Session> = Vec::new();
    while entries.len() > 0
        invariant
            out@.len() + entries@.len() == e0.len(),
            entries@ =~= e0.subrange(out@.len() as int, e0.len() as int),
            forall|i: int| 0 <= i < out@.len() ==> session_of_entry(#[trigger] out@[i], e0[i]),
        decreases entries@.len(),
    {
        let ghost done = out@.len() as int;
        let e = entries.remove(0);
        proof {
            assert(e == e0[done]);
        }
        let modified = match parse_rfc3339_millis(e.modified.as_str()) {
            Some(v) => v,
            None => 0,
        };
        out.push(
            Session {
                uuid: e.session_id,
                project_path: e.project_path,
                git_branch: e.git_branch,
                summary: e.summary,
                first_prompt: e.first_prompt,
                modified,
                message_count: e.message_count,
                provider: SessionProvider::Assistant,
            },
        );
        proof {
            assert(session_of_entry(out@[done], e0[done]));
        }
    }
    out
}

} // verus!
