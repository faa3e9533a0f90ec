//! The compute side of scanning: recognising the paused-work marker in a
//! commit subject, folding the decoded lines of an assistant transcript
//! into a session record, looking a first prompt up in a prompt history,
//! parsing the worktree listing a version-control query prints, and
//! finding stale database keys.  All the reading (files, subprocesses,
//! JSON decoding) happens in the surrounding application, which hands
//! plain values in.

use vstd::prelude::*;
use vstd::string::*;

use crate::model::{Session, SessionProvider, Worktree};
use crate::text::push_char;

verus! {

/// The four blank characters a commit subject is trimmed of.
pub open spec fn is_blank(c: char) -> bool {
    c == ' ' || c == '\t' || c == '\r' || c == '\n'
}

/// The text with leading and trailing blanks removed.
pub open spec fn trimmed(s: Seq<char>) -> Seq<char>
    decreases s.len(),
{
    if s.len() > 0 && is_blank(s[0]) {
        trimmed(s.drop_first())
    } else if s.len() > 0 && is_blank(s.last()) {
        trimmed(s.drop_last())
    } else {
        s
    }
}

/// `trimmed` is the subrange between the first and last non-blank
/// characters.
proof fn lemma_trimmed_subrange(s: Seq<char>, a: int, b: int)
    requires
        0 <= a <= b <= s.len(),
        forall|k: int| 0 <= k < a ==> is_blank(#[trigger] s[k]),
        forall|k: int| b <= k < s.len() ==> is_blank(#[trigger] s[k]),
        a < b ==> !is_blank(s[a]) && !is_blank(s[b - 1]),
        a == b ==> b == s.len(),
    ensures
        trimmed(s) == s.subrange(a, b),
    decreases s.len(),
{
    if s.len() == 0 {
        assert(trimmed(s) =~= s.subrange(a, b));
    } else if is_blank(s[0]) {
        let t = s.drop_first();
        if a > 0 {
            assert(s.subrange(a, b) =~= t.subrange(a - 1, b - 1));
            lemma_trimmed_subrange(t, a - 1, b - 1);
        } else {
            // a == 0 and s[0] blank, so a == b == s.len() is impossible
            // unless everything is blank; then b == s.len() and a == b.
            assert(a == b);
            assert(b == s.len());
            assert(s.subrange(a, b) =~= t.subrange(t.len() as int, t.len() as int));
            lemma_trimmed_subrange(t, t.len() as int, t.len() as int);
        }
    } else if is_blank(s.last()) {
        let t = s.drop_last();
        if b < s.len() {
            assert(s.subrange(a, b) =~= t.subrange(a, b));
            lemma_trimmed_subrange(t, a, b);
        } else {
            // b == s.len() and the last character is blank, so a == b is
            // forced (a < b would make s[b-1] non-blank) — all blank.
            assert(a == b);
            assert(s.subrange(a, b) =~= t.subrange(t.len() as int, t.len() as int));
            lemma_trimmed_subrange(t, t.len() as int, t.len() as int);
        }
    } else {
        assert(a == 0 && b == s.len());
        assert(trimmed(s) == s);
        assert(s.subrange(0, s.len() as int) =~= s);
    }
}

/// Whether this character counts as blank for trimming.
fn is_blank_char(c: char) -> (r: bool)
    ensures
        r == is_blank(c),
{
    c == ' ' || c == '\t' || c == '\r' || c == '\n'
}

/// The text with leading and trailing blanks removed.
pub fn trim_blanks(s: &str) -> (r: String)
    ensures
        r@ == trimmed(s@),
{
    let n = s.unicode_len();
    let mut a: usize = 0;
    while a < n && is_blank_char(s.get_char(a))
        invariant
            n == s@.len(),
            a <= n,
            forall|k: int| 0 <= k < a ==> is_blank(#[trigger] s@[k]),
        decreases n - a,
    {
        a = a + 1;
    }
    if a == n {
        proof {
            lemma_trimmed_subrange(s@, n as int, n as int);
            assert(s@.subrange(n as int, n as int) =~= Seq::<char>::empty());
        }
        return String::new();
    }
    let mut b: usize = n;
    while b > a + 1 && is_blank_char(s.get_char(b - 1))
        invariant
            n == s@.len(),
            a < n,
            !is_blank(s@[a as int]),
            a + 1 <= b <= n,
            forall|k: int| b <= k < n ==> is_blank(#[trigger] s@[k]),
        decreases b,
    {
        b = b - 1;
    }
    proof {
        // The second loop stops either on a non-blank character or at
        // `a + 1`, where the character is the non-blank one at `a`.
        if b == a + 1 {
            assert(!is_blank(s@[b - 1]));
        }
    }
    let out = s.substring_char(a, b).to_owned();
    proof {
        lemma_trimmed_subrange(s@, a as int, b as int);
    }
    out
}

/// The subject line of a paused-work marker commit.
pub open spec fn wip_marker() -> Seq<char> {
    "WIP: paused work"@
}

/// Whether a commit subject, once trimmed, is exactly the paused-work
/// marker.
pub fn is_wip_marker(subject: &str) -> (r: bool)
    ensures
        r == (trimmed(subject@) == wip_marker()),
{
    let t = trim_blanks(subject);
    let marker = String::from_str("WIP: paused work");
    t == marker
}

/// What one decoded transcript line contributes: the working directory
/// and branch it mentions, whether it is a user message, the user
/// message's plain-text content, and the summary it carries.
#[derive(Debug, Clone)]
pub struct LineFacts {
    pub cwd: Option<String>,
    pub git_branch: Option<String>,
    pub is_user: bool,
    pub user_content: Option<String>,
    pub summary: Option<String>,
}

/// The first working directory mentioned at or after line `i`.
pub open spec fn first_cwd_from(ls: Seq<LineFacts>, i: int) -> Option<String>
    decreases ls.len() - i,
{
    if i < 0 || i >= ls.len() {
        None
    } else if ls[i].cwd is Some {
        ls[i].cwd
    } else {
        first_cwd_from(ls, i + 1)
    }
}

/// The first branch mentioned at or after line `i`.
pub open spec fn first_branch_from(ls: Seq<LineFacts>, i: int) -> Option<String>
    decreases ls.len() - i,
{
    if i < 0 || i >= ls.len() {
        None
    } else if ls[i].git_branch is Some {
        ls[i].git_branch
    } else {
        first_branch_from(ls, i + 1)
    }
}

/// The first plain-text user prompt at or after line `i`.
pub open spec fn first_prompt_from(ls: Seq<LineFacts>, i: int) -> Option<String>
    decreases ls.len() - i,
{
    if i < 0 || i >= ls.len() {
        None
    } else if ls[i].is_user && ls[i].user_content is Some {
        ls[i].user_content
    } else {
        first_prompt_from(ls, i + 1)
    }
}

/// The last summary at or after line `i`.
pub open spec fn last_summary_from(ls: Seq<LineFacts>, i: int) -> Option<String>
    decreases ls.len() - i,
{
    if i < 0 || i >= ls.len() {
        None
    } else {
        match last_summary_from(ls, i + 1) {
            Some(x) => Some(x),
            None => ls[i].summary,
        }
    }
}

/// How many user messages lie at or after line `i`.
pub open spec fn user_count_from(ls: Seq<LineFacts>, i: int) -> nat
    decreases ls.len() - i,
{
    if i < 0 || i >= ls.len() {
        0
    } else {
        (if ls[i].is_user {
            1nat
        } else {
            0nat
        }) + user_count_from(ls, i + 1)
    }
}

/// Fold the decoded lines of one transcript into a session record: the
/// first working directory and branch mentioned, the first plain-text
/// user prompt, the last summary, and the user-message count.
pub fn session_from_lines(uuid: String, modified: i64, lines: &Vec<LineFacts>) -> (s: Session)
    requires
        lines@.len() <= i64::MAX,
    ensures
        s.uuid == uuid,
        s.modified == modified,
        s.provider == SessionProvider::Assistant,
        (match first_cwd_from(lines@, 0) {
            Some(c) => s.project_path == c,
            None => s.project_path@.len() == 0,
        }),
        s.git_branch == first_branch_from(lines@, 0),
        s.first_prompt == first_prompt_from(lines@, 0),
        s.summary == last_summary_from(lines@, 0),
        s.message_count matches Some(c) && c == user_count_from(lines@, 0),
{
    let n = lines.len();
    let mut cwd: Option<String> = None;
    let mut git_branch: Option<String> = None;
    let mut first_prompt: Option<String> = None;
    let mut summary: Option<String> = None;
    let mut count: i64 = 0;
    let mut p: usize = 0;
    while p < n
        invariant
            n == lines@.len(),
            n <= i64::MAX,
            p <= n,
            first_cwd_from(lines@, 0) == (match cwd {
                Some(c) => Some(c),
                None => first_cwd_from(lines@, p as int),
            }),
            first_branch_from(lines@, 0) == (match git_branch {
                Some(c) => Some(c),
                None => first_branch_from(lines@, p as int),
            }),
            first_prompt_from(lines@, 0) == (match first_prompt {
                Some(c) => Some(c),
                None => first_prompt_from(lines@, p as int),
            }),
            last_summary_from(lines@, 0) == (match last_summary_from(lines@, p as int) {
                Some(x) => Some(x),
                None => summary,
            }),
            count + user_count_from(lines@, p as int) == user_count_from(lines@, 0),
            0 <= count <= p,
        decreases n - p,
    {
        let line = &lines[p];
        if cwd.is_none() {
            if line.cwd.is_some() {
                cwd = line.cwd.clone();
            }
        }
        if git_branch.is_none() {
            if line.git_branch.is_some() {
                git_branch = line.git_branch.clone();
            }
        }
        if line.is_user {
            count = count + 1;
            if first_prompt.is_none() {
                if line.user_content.is_some() {
                    first_prompt = line.user_content.clone();
                }
            }
        }
        if line.summary.is_some() {
            summary = line.summary.clone();
        }
        p = p + 1;
    }
    let project_path = match cwd {
        Some(c) => c,
        None => String::new(),
    };
    Session {
        uuid,
        project_path,
        git_branch,
        summary,
        first_prompt,
        modified,
        message_count: Some(count),
        provider: SessionProvider::Assistant,
    }
}

/// The text of the first history entry for this session identifier.
pub open spec fn prompt_lookup_from(h: Seq<(String, String)>, id: Seq<char>, i: int) -> Option<
    String,
>
    decreases h.len() - i,
{
    if i < 0 || i >= h.len() {
        None
    } else if h[i].0@ == id {
        Some(h[i].1)
    } else {
        prompt_lookup_from(h, id, i + 1)
    }
}

/// Find the first prompt a history holds for one session: the text of
/// the earliest entry with that identifier (later entries never win).
pub fn first_prompt_for(history: &Vec<(String, String)>, id: &String) -> (r: Option<String>)
    ensures
        r == prompt_lookup_from(history@, id@, 0),
{
    let n = history.len();
    let mut i: usize = 0;
    while i < n
        invariant
            n == history@.len(),
            i <= n,
            prompt_lookup_from(history@, id@, 0) == prompt_lookup_from(history@, id@, i as int),
        decreases n - i,
    {
        if history[i].0 == *id {
            return Some(history[i].1.clone());
        }
        i = i + 1;
    }
    None
}

/// Assemble a session record from the metadata of a session file whose
/// transcript lives elsewhere: the first prompt comes from the prompt
/// history, the summary and message count are unknown.
pub fn codex_session(
    id: String,
    cwd: Option<String>,
    git_branch: Option<String>,
    modified: i64,
    history: &Vec<(String, String)>,
) -> (s: Session)
    ensures
        s.uuid == id,
        (match cwd {
            Some(c) => s.project_path == c,
            None => s.project_path@.len() == 0,
        }),
        s.git_branch == git_branch,
        s.summary is None,
        s.first_prompt == prompt_lookup_from(history@, id@, 0),
        s.modified == modified,
        s.message_count is None,
        s.provider == SessionProvider::Codex,
{
    let first_prompt = first_prompt_for(history, &id);
    let project_path = match cwd {
        Some(c) => c,
        None => String::new(),
    };
    Session {
        uuid: id,
        project_path,
        git_branch,
        summary: None,
        first_prompt,
        modified,
        message_count: None,
        provider: SessionProvider::Codex,
    }
}

/// A carriage return immediately before a line feed is dropped.
pub open spec fn strip_cr(line: Seq<char>) -> Seq<char> {
    if line.len() > 0 && line.last() == '\r' {
        line.drop_last()
    } else {
        line
    }
}

/// The lines of `s[i..]` given the unterminated text `cur` read so far:
/// a line feed ends a line (dropping a carriage return just before it),
/// and a final line needs no terminator.  This is how `str::lines`
/// splits.
pub open spec fn split_lines_acc(s: Seq<char>, i: int, cur: Seq<char>) -> Seq<Seq<char>>
    decreases s.len() - i,
{
    if i < 0 || i >= s.len() {
        if cur.len() == 0 {
            Seq::empty()
        } else {
            seq![cur]
        }
    } else if s[i] == '\n' {
        seq![strip_cr(cur)] + split_lines_acc(s, i + 1, Seq::empty())
    } else {
        split_lines_acc(s, i + 1, cur.push(s[i]))
    }
}

/// The text split into lines.
pub open spec fn split_lines(s: Seq<char>) -> Seq<Seq<char>> {
    split_lines_acc(s, 0, Seq::empty())
}

/// The views of a list of strings.
pub open spec fn str_views(v: Seq<String>) -> Seq<Seq<char>> {
    v.map_values(|l: String| l@)
}

/// Drop a carriage return at the very end, if any.
fn strip_cr_exec(line: String) -> (r: String)
    ensures
        r@ == strip_cr(line@),
{
    let n = line.as_str().unicode_len();
    if n > 0 && line.as_str().get_char(n - 1) == '\r' {
        let r = line.as_str().substring_char(0, n - 1).to_owned();
        proof {
            assert(r@ =~= line@.drop_last());
        }
        r
    } else {
        line
    }
}

/// Split a text into its lines, as `str::lines` does.
pub fn split_into_lines(s: &str) -> (r: Vec<String>)
    ensures
        str_views(r@) == split_lines(s@),
{
    let n = s.unicode_len();
    let mut out: Vec<String> = Vec::new();
    let mut cur: String = String::new();
    let mut i: usize = 0;
    while i < n
        invariant
            n == s@.len(),
            i <= n,
            split_lines(s@) == str_views(out@) + split_lines_acc(s@, i as int, cur@),
        decreases n - i,
    {
        let c = s.get_char(i);
        if c == '\n' {
            let ghost out0 = out@;
            let ghost cur0 = cur@;
            let finished = strip_cr_exec(cur);
            out.push(finished);
            cur = String::new();
            proof {
                assert(str_views(out@) =~~= str_views(out0).push(strip_cr(cur0)));
                assert(str_views(out0).push(strip_cr(cur0)) + split_lines_acc(
                    s@,
                    i + 1,
                    Seq::empty(),
                ) =~~= str_views(out0) + (seq![strip_cr(cur0)] + split_lines_acc(
                    s@,
                    i + 1,
                    Seq::empty(),
                )));
            }
        } else {
            push_char(&mut cur, c);
        }
        i = i + 1;
    }
    if !cur.as_str().is_empty() {
        let ghost out0 = out@;
        let ghost cur0 = cur@;
        out.push(cur);
        proof {
            assert(str_views(out@) =~~= str_views(out0).push(cur0));
            assert(str_views(out0).push(cur0) =~~= str_views(out0) + seq![cur0]);
        }
    }
    proof {
        assert(str_views(out@) =~~= split_lines(s@));
    }
    out
}

/// `s` starts with `p`.
pub open spec fn has_prefix(s: Seq<char>, p: Seq<char>) -> bool {
    s.len() >= p.len() && s.subrange(0, p.len() as int) == p
}

/// Character-by-character prefix test.
fn str_has_prefix(s: &str, p: &str) -> (r: bool)
    ensures
        r == has_prefix(s@, p@),
{
    let np = p.unicode_len();
    let ns = s.unicode_len();
    if ns < np {
        return false;
    }
    let mut i: usize = 0;
    while i < np
        invariant
            np == p@.len(),
            ns == s@.len(),
            np <= ns,
            i <= np,
            forall|j: int| 0 <= j < i ==> s@[j] == p@[j],
        decreases np - i,
    {
        if s.get_char(i) != p.get_char(i) {
            proof {
                assert(s@.subrange(0, np as int)[i as int] != p@[i as int]);
            }
            return false;
        }
        i = i + 1;
    }
    proof {
        assert(s@.subrange(0, np as int) =~= p@);
    }
    true
}

/// The view of a worktree record: its path and, when not detached, its
/// branch.
pub open spec fn wt_pair(w: Worktree) -> (Seq<char>, Option<Seq<char>>) {
    (
        w.path@,
        match w.branch {
            Some(b) => Some(b@),
            None => None,
        },
    )
}

/// What the porcelain worktree listing means from line `i` on, given the
/// path and branch collected for the worktree currently being read:
/// a `worktree ` line emits the collected record and starts a new one, a
/// `branch ` line records the branch (its `refs/heads/` prefix dropped),
/// a `detached` line records that there is none, and the final record is
/// emitted at the end.
pub open spec fn parse_wt_acc(
    lines: Seq<Seq<char>>,
    i: int,
    cur_path: Option<Seq<char>>,
    cur_branch: Option<Seq<char>>,
) -> Seq<(Seq<char>, Option<Seq<char>>)>
    decreases lines.len() - i,
{
    if i < 0 || i >= lines.len() {
        match cur_path {
            Some(p) => seq![(p, cur_branch)],
            None => Seq::empty(),
        }
    } else {
        let line = lines[i];
        if has_prefix(line, "worktree "@) {
            let emitted: Seq<(Seq<char>, Option<Seq<char>>)> = match cur_path {
                Some(p) => seq![(p, cur_branch)],
                None => Seq::empty(),
            };
            let kept_branch = match cur_path {
                Some(_) => None,
                None => cur_branch,
            };
            emitted + parse_wt_acc(
                lines,
                i + 1,
                Some(line.subrange(9, line.len() as int)),
                kept_branch,
            )
        } else if has_prefix(line, "branch "@) {
            let full = line.subrange(7, line.len() as int);
            let b = if has_prefix(full, "refs/heads/"@) {
                full.subrange(11, full.len() as int)
            } else {
                full
            };
            parse_wt_acc(lines, i + 1, cur_path, Some(b))
        } else if has_prefix(line, "detached"@) {
            parse_wt_acc(lines, i + 1, cur_path, None)
        } else {
            parse_wt_acc(lines, i + 1, cur_path, cur_branch)
        }
    }
}

/// The records a porcelain worktree listing describes.
pub open spec fn parsed_worktrees(s: Seq<char>) -> Seq<(Seq<char>, Option<Seq<char>>)> {
    parse_wt_acc(split_lines(s), 0, None, None)
}

/// The view of an option of a string.
pub open spec fn opt_view(o: Option<String>) -> Option<Seq<char>> {
    match o {
        Some(x) => Some(x@),
        None => None,
    }
}

/// Parse the porcelain output of the worktree listing query into
/// worktree records.
pub fn parse_worktree_list(output: &str) -> (r: Vec<Worktree>)
    ensures
        r@.map_values(|w: Worktree| wt_pair(w)) == parsed_worktrees(output@),
{
    let lines = split_into_lines(output);
    let ghost lviews = split_lines(output@);
    let n = lines.len();
    let mut out: Vec<Worktree> = Vec::new();
    let mut cur_path: Option<String> = None;
    let mut cur_branch: Option<String> = None;
    let mut i: usize = 0;
    while i < n
        invariant
            n == lines@.len(),
            str_views(lines@) == lviews,
            i <= n,
            out@.map_values(|w: Worktree| wt_pair(w)) + parse_wt_acc(
                lviews,
                i as int,
                opt_view(cur_path),
                opt_view(cur_branch),
            ) == parse_wt_acc(lviews, 0, None, None),
        decreases n - i,
    {
        proof {
            reveal_strlit("worktree ");
            reveal_strlit("branch ");
            reveal_strlit("refs/heads/");
            reveal_strlit("detached");
            assert(lines@[i as int]@ == lviews[i as int]);
        }
        let line = &lines[i];
        if str_has_prefix(line.as_str(), "worktree ") {
            let ghost out0 = out@;
            let new_path = line.as_str().substring_char(9, line.as_str().unicode_len())
                .to_owned();
            match cur_path {
                Some(p) => {
                    let b = match cur_branch {
                        Some(x) => Some(x),
                        None => None,
                    };
                    cur_branch = None;
                    out.push(Worktree { path: p, branch: b });
                    proof {
                        assert(out@.map_values(|w: Worktree| wt_pair(w)) =~= out0.map_values(
                            |w: Worktree| wt_pair(w),
                        ).push(wt_pair(out@[out@.len() - 1])));
                    }
                },
                None => {
                },
            }
            cur_path = Some(new_path);
        } else if str_has_prefix(line.as_str(), "branch ") {
            let full = line.as_str().substring_char(7, line.as_str().unicode_len());
            let b = if str_has_prefix(full, "refs/heads/") {
                full.substring_char(11, full.unicode_len()).to_owned()
            } else {
                full.to_owned()
            };
            cur_branch = Some(b);
        } else if str_has_prefix(line.as_str(), "detached") {
            cur_branch = None;
        }
        i = i + 1;
    }
    match cur_path {
        Some(p) => {
            let ghost out0 = out@;
            out.push(Worktree { path: p, branch: cur_branch });
            proof {
                assert(out@.map_values(|w: Worktree| wt_pair(w)) =~= out0.map_values(
                    |w: Worktree| wt_pair(w),
                ).push(wt_pair(out@[out@.len() - 1])));
            }
        },
        None => {
        },
    }
    proof {
        assert(out@.map_values(|w: Worktree| wt_pair(w)) =~= parse_wt_acc(lviews, 0, None, None));
    }
    out
}

/// The list holds this text.
pub open spec fn contains_str(s: Seq<String>, x: Seq<char>) -> bool {
    exists|i: int| 0 <= i < s.len() && (#[trigger] s[i])@ == x
}

/// The keys recorded in storage that the latest scan no longer reports:
/// exactly those of `all` that `current` does not hold.
pub fn stale_keys(all: &Vec<String>, current: &Vec<String>) -> (r: Vec<String>)
    ensures
        forall|i: int|
            0 <= i < r@.len() ==> contains_str(all@, (#[trigger] r@[i])@) && !contains_str(
                current@,
                r@[i]@,
            ),
        forall|i: int|
            0 <= i < all@.len() ==> (!contains_str(current@, (#[trigger] all@[i])@)
                ==> contains_str(r@, all@[i]@)),
{
    let n = all.len();
    let mut out: Vec<String> = Vec::new();
    let mut i: usize = 0;
    while i < n
        invariant
            n == all@.len(),
            i <= n,
            forall|m: int|
                0 <= m < out@.len() ==> contains_str(all@, (#[trigger] out@[m])@)
                    && !contains_str(current@, out@[m]@),
            forall|m: int|
                0 <= m < i ==> (!contains_str(current@, (#[trigger] all@[m])@) ==> contains_str(
                    out@,
                    all@[m]@,
                )),
        decreases n - i,
    {
        let mut present = false;
        let mut j: usize = 0;
        let m = current.len();
        while j < m && !present
            invariant
                m == current@.len(),
                j <= m,
                !present ==> forall|k: int|
                    0 <= k < j ==> (#[trigger] current@[k])@ != all@[i as int]@,
                present ==> contains_str(current@, all@[i as int]@),
                i < n,
                n == all@.len(),
            decreases m - j + (if present {
                0int
            } else {
                1int
            }),
        {
            if current[j] == all[i] {
                present = true;
            } else {
                j = j + 1;
            }
        }
        if !present {
            let ghost out0 = out@;
            out.push(all[i].clone());
            proof {
                assert(contains_str(out@, all@[i as int]@)) by {
                    assert(out@[out@.len() - 1]@ == all@[i as int]@);
                }
                assert forall|m: int| 0 <= m < out@.len() implies contains_str(
                    all@,
                    (#[trigger] out@[m])@,
                ) && !contains_str(current@, out@[m]@) by {
                    if m < out0.len() {
                        assert(out@[m] == out0[m]);
                    } else {
                        assert(out@[m]@ == all@[i as int]@);
                    }
                }
                assert forall|m: int| 0 <= m < i implies (!contains_str(
                    current@,
                    (#[trigger] all@[m])@,
                ) ==> contains_str(out@, all@[m]@)) by {
                    if !contains_str(current@, all@[m]@) {
                        let w = choose|w: int|
                            0 <= w < out0.len() && (#[trigger] out0[w])@ == all@[m]@;
                        assert(out@[w]@ == all@[m]@);
                    }
                }
            }
        }
        i = i + 1;
    }
    out
}

} // verus!
