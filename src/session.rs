//! Sessions (one per transcript file), projects, and the label shown for a session.

use vstd::prelude::*;

use crate::order::{compare_str, lemma_lex_cmp_antisymmetric, lex_cmp};
use crate::text::{
    char_vec, decimal, ellipsis, has_prefix, one_line, replace_char, replaced, truncate_message,
    truncated, usize_to_string,
};

verus! {

/// A project: a directory of transcripts, named after the last dash-separated
/// part of its encoded directory name.
#[derive(Clone, Debug)]
pub struct Project {
    pub name: String,
    pub path: String,
    pub raw_name: String,
}

/// Where the last dash-separated part of `s` begins.
pub open spec fn segment_start(s: Seq<char>) -> int
    decreases s.len(),
{
    if s.len() == 0 {
        0
    } else if s.last() == '-' {
        s.len() as int
    } else {
        segment_start(s.drop_last())
    }
}

/// The text after the last dash of `s`, or all of `s` when it has none.
pub open spec fn last_segment(s: Seq<char>) -> Seq<char> {
    s.subrange(segment_start(s), s.len() as int)
}

impl Project {
    /// Reads a project from its encoded directory name, e.g.
    /// `-home-user-Projects-threshold` gives the name `threshold`.
    pub fn from_dir_name(raw_name: &str, path: String) -> (r: Project)
        ensures
            r.name@ == last_segment(raw_name@),
            r.raw_name@ == raw_name@,
            r.path@ == path@,
    {
        let cs = char_vec(raw_name);
        let mut start: usize = 0;
        let mut i: usize = 0;
        while i < cs.len()
            invariant
                i <= cs.len(),
                cs@ == raw_name@,
                start as int == segment_start(cs@.take(i as int)),
                start <= i,
            decreases cs.len() - i,
        {
            assert(cs@.take(i as int + 1).drop_last() =~= cs@.take(i as int));
            if cs[i] == '-' {
                start = i + 1;
            }
            i = i + 1;
        }
        assert(cs@.take(cs.len() as int) =~= cs@);
        let name = String::from_str(raw_name.substring_char(start, cs.len()));
        Project { name, path, raw_name: String::from_str(raw_name) }
    }
}

/// One transcript file and what a scan of it found. Times are milliseconds
/// since the Unix epoch. The derived fields stay unset until a scan has run.
#[derive(Clone, Debug)]
pub struct Session {
    pub id: String,
    pub project: String,
    pub project_raw: String,
    pub path: String,
    pub size_bytes: u64,
    pub modified: i64,
    pub created: Option<i64>,
    pub summary: Option<String>,
    pub first_message: Option<String>,
    pub message_count: Option<usize>,
    pub is_agent: bool,
    pub has_directory: bool,
    /// A name the user gave the session.
    pub custom_title: Option<String>,
    /// All textual content, lowercased, for searching.
    pub search_content: Option<String>,
    /// A rough estimate of the tokens in the transcript: characters / 4.
    pub token_count: Option<usize>,
}

impl Session {
    /// A session as the file scanner finds it, before any scan of its content.
    /// `has_directory` says whether a sibling directory of the same name exists.
    pub fn new(
        id: String,
        project: String,
        project_raw: String,
        path: String,
        size_bytes: u64,
        modified: i64,
        has_directory: bool,
    ) -> (r: Session)
        ensures
            r.id@ == id@,
            r.project@ == project@,
            r.project_raw@ == project_raw@,
            r.path@ == path@,
            r.size_bytes == size_bytes,
            r.modified == modified,
            r.has_directory == has_directory,
            r.is_agent == "agent-"@.is_prefix_of(id@),
            r.created is None,
            r.summary is None,
            r.first_message is None,
            r.message_count is None,
            r.custom_title is None,
            r.search_content is None,
            r.token_count is None,
    {
        let is_agent = has_prefix(id.as_str(), "agent-");
        Session {
            id,
            project,
            project_raw,
            path,
            size_bytes,
            modified,
            created: None,
            summary: None,
            first_message: None,
            message_count: None,
            is_agent,
            has_directory,
            custom_title: None,
            search_content: None,
            token_count: None,
        }
    }
}

/// A session id as shown in a label: at most 12 characters, then an ellipsis.
pub open spec fn short_id(id: Seq<char>) -> Seq<char> {
    if id.len() > 12 {
        id.take(12) + ellipsis()
    } else {
        id
    }
}

/// The label of a session: its custom title, else its first message, else its
/// summary (each made one line and cut to 50 characters); else its message
/// count; else its short id, in brackets.
pub open spec fn preview_of(s: Session) -> Seq<char> {
    if s.custom_title is Some {
        truncated(one_line(s.custom_title->0@), 50)
    } else if s.first_message is Some {
        truncated(one_line(s.first_message->0@), 50)
    } else if s.summary is Some {
        truncated(one_line(s.summary->0@), 50)
    } else if s.message_count is Some && s.message_count->0 > 0 {
        let n = s.message_count->0;
        seq!['['] + decimal(n as nat) + " message"@ + (if n == 1 {
            Seq::empty()
        } else {
            seq!['s']
        }) + seq![']']
    } else {
        seq!['['] + short_id(s.id@) + seq![']']
    }
}

/// The label shown for a session in lists.
pub fn get_session_preview(session: &Session) -> (r: String)
    ensures
        r@ == preview_of(*session),
{
    if let Some(title) = &session.custom_title {
        return truncate_message(title.as_str(), 50);
    }
    if let Some(msg) = &session.first_message {
        return truncate_message(msg.as_str(), 50);
    }
    if let Some(summary) = &session.summary {
        return truncate_message(summary.as_str(), 50);
    }
    proof {
        reveal_strlit("[");
        reveal_strlit("]");
        reveal_strlit("s");
        reveal_strlit("...");
    }
    if let Some(count) = session.message_count {
        if count > 0 {
            let mut out = String::from_str("[");
            let digits = usize_to_string(count);
            out.append(digits.as_str());
            out.append(" message");
            if count != 1 {
                out.append("s");
            }
            out.append("]");
            return out;
        }
    }
    let mut out = String::from_str("[");
    let n = session.id.as_str().unicode_len();
    if n > 12 {
        out.append(session.id.as_str().substring_char(0, 12));
        out.append("...");
    } else {
        out.append(session.id.as_str());
    }
    out.append("]");
    out
}

/// Each text comes strictly before the next.
pub open spec fn strictly_ascending(v: Seq<String>) -> bool {
    forall|i: int| 0 <= i < v.len() - 1 ==> lex_cmp(#[trigger] v[i]@, v[i + 1]@) < 0
}

/// Some session belongs to the project named `name`.
pub open spec fn has_project(sessions: Seq<Session>, name: Seq<char>) -> bool {
    exists|k: int| 0 <= k < sessions.len() && #[trigger] sessions[k].project@ == name
}

/// Some entry of `v` holds `name`.
pub open spec fn holds_name(v: Seq<String>, name: Seq<char>) -> bool {
    exists|k: int| 0 <= k < v.len() && #[trigger] v[k]@ == name
}

proof fn lemma_names_step(
    before: Seq<String>,
    after: Seq<String>,
    prev: Seq<Session>,
    s: Session,
    dup: bool,
    pos: int,
)
    requires
        forall|name: Seq<char>| holds_name(before, name) <==> has_project(prev, name),
        0 <= pos <= before.len(),
        dup ==> pos > 0 && after == before && before[pos - 1]@ == s.project@,
        !dup ==> {
            &&& after.len() == before.len() + 1
            &&& after[pos]@ == s.project@
            &&& forall|k: int| 0 <= k < pos ==> after[k] == before[k]
            &&& forall|k: int| pos < k < after.len() ==> after[k] == before[k - 1]
        },
    ensures
        forall|name: Seq<char>| holds_name(after, name) <==> has_project(prev.push(s), name),
{
    let t = prev.push(s);
    assert forall|name: Seq<char>| holds_name(after, name) implies has_project(t, name) by {
        let k = choose|k: int| 0 <= k < after.len() && #[trigger] after[k]@ == name;
        if name == s.project@ {
            assert(t[prev.len() as int].project@ == name);
        } else {
            if !dup {
                if k < pos {
                    assert(before[k]@ == name);
                } else {
                    assert(before[k - 1]@ == name);
                }
            } else {
                assert(before[k]@ == name);
            }
            assert(holds_name(before, name));
            let j = choose|j: int| 0 <= j < prev.len() && #[trigger] prev[j].project@ == name;
            assert(t[j].project@ == name);
        }
    }
    assert forall|name: Seq<char>| has_project(t, name) implies holds_name(after, name) by {
        let j = choose|j: int| 0 <= j < t.len() && #[trigger] t[j].project@ == name;
        if j < prev.len() {
            assert(prev[j].project@ == name);
            assert(has_project(prev, name));
            let k = choose|k: int| 0 <= k < before.len() && #[trigger] before[k]@ == name;
            if !dup {
                if k < pos {
                    assert(after[k]@ == name);
                } else {
                    assert(after[k + 1]@ == name);
                }
            } else {
                assert(after[k]@ == name);
            }
        } else {
            if !dup {
                assert(after[pos]@ == name);
            } else {
                assert(after[pos - 1]@ == name);
            }
        }
    }
}

/// The distinct project names of the sessions, in ascending order.
pub fn get_project_names(sessions: &Vec<Session>) -> (r: Vec<String>)
    ensures
        strictly_ascending(r@),
        forall|name: Seq<char>| holds_name(r@, name) <==> has_project(sessions@, name),
{
    let mut out: Vec<String> = Vec::new();
    let mut i: usize = 0;
    while i < sessions.len()
        invariant
            i <= sessions.len(),
            strictly_ascending(out@),
            forall|name: Seq<char>|
                holds_name(out@, name) <==> has_project(sessions@.take(i as int), name),
        decreases sessions.len() - i,
    {
        let p = &sessions[i].project;
        let mut pos: usize = out.len();
        while pos > 0 && compare_str(out[pos - 1].as_str(), p.as_str()) > 0
            invariant
                pos <= out.len(),
                forall|k: int| pos <= k < out.len() ==> lex_cmp(#[trigger] out@[k]@, p@) > 0,
            decreases pos,
        {
            pos = pos - 1;
        }
        let ghost before = out@;
        let dup = pos > 0 && compare_str(out[pos - 1].as_str(), p.as_str()) == 0;
        let ghost ins: Seq<String> = before;
        if !dup {
            let c = p.clone();
            out.insert(pos, c);
            proof {
                ins = before.insert(pos as int, c);
                assert(out@ == ins);
                assert(ins[pos as int]@ == p@);
                assert(forall|k: int| 0 <= k < pos ==> ins[k] == before[k]);
                assert(forall|k: int| pos < k < ins.len() ==> ins[k] == before[k - 1]);
                assert forall|k: int| 0 <= k < out@.len() - 1 implies lex_cmp(
                    #[trigger] out@[k]@,
                    out@[k + 1]@,
                ) < 0 by {
                    if k + 1 < pos {
                        assert(out@[k] == before[k] && out@[k + 1] == before[k + 1]);
                    } else if k + 1 == pos {
                        lemma_lex_cmp_antisymmetric(before[k]@, p@);
                    } else if k == pos {
                        lemma_lex_cmp_antisymmetric(before[k]@, p@);
                    } else {
                        assert(out@[k] == before[k - 1] && out@[k + 1] == before[k]);
                    }
                }
            }
        } else {
            proof {
                lemma_lex_cmp_antisymmetric(out@[pos - 1]@, p@);
            }
        }
        assert(out@ == ins);
        proof {
            if dup {
                assert(out@[pos - 1]@ == p@);
            }
            assert(sessions@.take(i as int + 1) =~= sessions@.take(i as int).push(sessions@[i as int]));
            lemma_names_step(before, out@, sessions@.take(i as int), sessions@[i as int], dup, pos as int);
        }
        i = i + 1;
    }
    assert(sessions@.take(sessions.len() as int) =~= sessions@);
    out
}

/// A custom title always gives the label; without one, the first message
/// beats the summary; with none of the three, a non-zero message count gives
/// the label, else the bracketed short id.
pub proof fn lemma_preview_priority(s: Session)
    ensures
        s.custom_title is Some ==> preview_of(s) == truncated(one_line(s.custom_title->0@), 50),
        s.custom_title is None && s.first_message is Some ==> preview_of(s) == truncated(
            one_line(s.first_message->0@),
            50,
        ),
        s.custom_title is None && s.first_message is None && s.summary is Some ==> preview_of(s)
            == truncated(one_line(s.summary->0@), 50),
        s.custom_title is None && s.first_message is None && s.summary is None ==> {
            ||| s.message_count matches Some(n) && n > 0 && preview_of(s) == seq!['['] + decimal(
                n as nat,
            ) + " message"@ + (if n == 1 {
                Seq::<char>::empty()
            } else {
                seq!['s']
            }) + seq![']']
            ||| !(s.message_count matches Some(n) && n > 0) && preview_of(s) == seq!['['] + short_id(
                s.id@,
            ) + seq![']']
        },
{
}

/// The directory a project's encoded name stands for: its leading dash
/// dropped, every other dash read as a slash, under the root.
pub open spec fn project_path_of(raw: Seq<char>) -> Seq<char> {
    seq!['/'] + replaced(
        if raw.len() > 0 && raw[0] == '-' {
            raw.drop_first()
        } else {
            raw
        },
        '-',
        '/',
    )
}

/// Decodes a project directory name, e.g. `-home-user-dotfiles` gives
/// `/home/user/dotfiles`.
pub fn decode_project_path(raw_name: &str) -> (r: String)
    ensures
        r@ == project_path_of(raw_name@),
{
    proof {
        reveal_strlit("-");
        reveal_strlit("/");
    }
    let n = raw_name.unicode_len();
    let dash = has_prefix(raw_name, "-");
    let body = if dash {
        raw_name.substring_char(1, n)
    } else {
        raw_name
    };
    proof {
        assert("-"@ =~= seq!['-']);
        if raw_name@.len() > 0 && raw_name@[0] == '-' {
            assert(raw_name@.subrange(0, 1) =~= seq!['-']);
        }
        if dash {
            assert(raw_name@.subrange(0, 1)[0] == '-');
        }
        assert(dash == (raw_name@.len() > 0 && raw_name@[0] == '-'));
        if dash {
            assert(body@ =~= raw_name@.drop_first());
        }
    }
    let mut out = String::from_str("/");
    let rest = replace_char(body, '-', '/');
    out.append(rest.as_str());
    out
}

} // verus!
