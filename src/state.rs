//! The view state: the session collection with its filtered and sorted
//! projection, cursor, multi-selection and dialogs.

use std::collections::HashSet;

use vstd::prelude::*;
use vstd::view::View as _;

use crate::order::{compare_str, lemma_lex_cmp_antisymmetric, lex_cmp};
use crate::session::{get_project_names, has_project, holds_name, strictly_ascending, Session};
use crate::text::{contains_str, lower_of, occurs_in, opt_chars, to_lower};

verus! {

/// The screens of the interface.
#[derive(Clone, Copy, Debug, PartialEq, Eq, Structural)]
pub enum View {
    List,
    Preview,
    Search,
    Help,
    Confirm,
}

/// What a confirmation dialog does when accepted.
#[derive(Clone, Copy, Debug, PartialEq, Eq, Structural)]
pub enum DialogAction {
    DeleteSelected,
    DeleteOlderThan(u32),
    ArchiveSelected,
    ExportSelected,
}

/// The key the projection is sorted by.
#[derive(Clone, Copy, Debug, PartialEq, Eq, Structural, Default)]
pub enum SortField {
    #[default]
    Date,
    Size,
    Project,
    Name,
}

/// The sort key after `f` in the cycle Date, Size, Project, Name.
pub open spec fn next_field(f: SortField) -> SortField {
    match f {
        SortField::Date => SortField::Size,
        SortField::Size => SortField::Project,
        SortField::Project => SortField::Name,
        SortField::Name => SortField::Date,
    }
}

impl SortField {
    /// The next key in the cycle Date, Size, Project, Name.
    pub fn next(self) -> (r: SortField)
        ensures
            r == next_field(self),
    {
        match self {
            SortField::Date => SortField::Size,
            SortField::Size => SortField::Project,
            SortField::Project => SortField::Name,
            SortField::Name => SortField::Date,
        }
    }

    /// The key's display name.
    pub fn as_str(self) -> (r: &'static str)
        ensures
            r@ == match self {
                SortField::Date => "Date"@,
                SortField::Size => "Size"@,
                SortField::Project => "Project"@,
                SortField::Name => "Name"@,
            },
    {
        match self {
            SortField::Date => "Date",
            SortField::Size => "Size",
            SortField::Project => "Project",
            SortField::Name => "Name",
        }
    }
}

/// The active filters: a free-text query, a project, a minimum age in days.
#[derive(Clone, Debug, Default)]
pub struct Filter {
    pub query: String,
    pub project: Option<String>,
    pub age_days: Option<u32>,
}

impl Filter {
    /// No filtering at all.
    pub fn none() -> (r: Filter)
        ensures
            r.query@.len() == 0,
            r.project is None,
            r.age_days is None,
    {
        Filter { query: String::new(), project: None, age_days: None }
    }
}

/// The whole state of the interface.
pub struct UiState {
    pub view: View,
    pub sessions: Vec<Session>,
    /// Indices into `sessions`: the current filtered and sorted projection.
    pub filtered_indices: Vec<usize>,
    /// A position in `filtered_indices`.
    pub cursor: usize,
    pub scroll_offset: usize,
    /// Indices into `sessions`.
    pub selected: HashSet<usize>,
    pub select_mode: bool,
    pub filter: Filter,
    pub preview_scroll: usize,
    pub preview_lines: Vec<String>,
    pub preview_search: String,
    pub preview_search_active: bool,
    /// Indices into `preview_lines` of the lines matching the preview search.
    pub preview_matches: Vec<usize>,
    pub preview_match_index: usize,
    pub dialog_message: Option<String>,
    pub dialog_action: Option<DialogAction>,
    pub status_message: Option<String>,
    pub projects: Vec<String>,
    /// 0 for all projects, else one past the position in `projects`.
    pub project_filter_index: usize,
    pub sort_field: SortField,
    pub sort_reversed: bool,
}

/// `o` holds a string with the characters of `s`.
pub open spec fn opt_chars_eq(o: Option<String>, s: String) -> bool {
    opt_chars(o) == Some(s@)
}

/// Milliseconds in a day.
pub const DAY_MS: i128 = 86_400_000;

/// Whole days from `modified` to `now`, truncated toward zero.
pub open spec fn days_between(now: i64, modified: i64) -> int {
    let d = now - modified;
    if d >= 0 {
        d / (DAY_MS as int)
    } else {
        -((-d) / (DAY_MS as int))
    }
}

/// An optional text, or nothing.
pub open spec fn or_empty(o: Option<String>) -> Seq<char> {
    match o {
        Some(s) => s@,
        None => Seq::empty(),
    }
}

/// The text searched for a session that has not been scanned: project, id,
/// summary and first message, space-separated.
pub open spec fn fallback_text(s: Session) -> Seq<char> {
    s.project@ + seq![' '] + s.id@ + seq![' '] + or_empty(s.summary) + seq![' '] + or_empty(
        s.first_message,
    )
}

/// A session matches a lowercased query: within its searchable content when
/// scanned, else within its lowercased fallback text.
pub open spec fn query_hits(s: Session, q: Seq<char>) -> bool {
    match s.search_content {
        Some(c) => occurs_in(q, c@),
        None => occurs_in(q, lower_of(fallback_text(s))),
    }
}

/// A session passes every active filter at time `now`.
pub open spec fn passes(s: Session, f: Filter, now: i64) -> bool {
    &&& f.project is Some ==> s.project@ == f.project->0@
    &&& f.age_days is Some ==> days_between(now, s.modified) >= f.age_days->0
    &&& lower_of(f.query@).len() > 0 ==> query_hits(s, lower_of(f.query@))
}

/// The indices of the sessions that pass the filters, ascending.
pub open spec fn filtered(sessions: Seq<Session>, f: Filter, now: i64) -> Seq<usize>
    decreases sessions.len(),
{
    if sessions.len() == 0 {
        Seq::empty()
    } else {
        let rest = filtered(sessions.drop_last(), f, now);
        if passes(sessions.last(), f, now) {
            rest.push((sessions.len() - 1) as usize)
        } else {
            rest
        }
    }
}

/// Every filtered index names a session, and only passing sessions are named.
pub proof fn lemma_filtered_members(sessions: Seq<Session>, f: Filter, now: i64)
    requires
        sessions.len() <= usize::MAX,
    ensures
        forall|k: int|
            0 <= k < filtered(sessions, f, now).len() ==> (#[trigger] filtered(sessions, f, now)[k])
                < sessions.len(),
        forall|i: usize|
            filtered(sessions, f, now).contains(i) <==> (i < sessions.len() && passes(
                sessions[i as int],
                f,
                now,
            )),
    decreases sessions.len(),
{
    if sessions.len() > 0 {
        let init = sessions.drop_last();
        lemma_filtered_members(init, f, now);
        let rest = filtered(init, f, now);
        let all = filtered(sessions, f, now);
        assert(all == if passes(sessions.last(), f, now) {
            rest.push((sessions.len() - 1) as usize)
        } else {
            rest
        });
        assert(forall|k: int| 0 <= k < rest.len() ==> all[k] == rest[k]);
        assert forall|i: usize|
            filtered(sessions, f, now).contains(i) <==> (i < sessions.len() && passes(
                sessions[i as int],
                f,
                now,
            )) by {
            if i < init.len() {
                assert(init[i as int] == sessions[i as int]);
            }
            if filtered(sessions, f, now).contains(i) {
                let k = choose|k: int|
                    0 <= k < filtered(sessions, f, now).len() && filtered(sessions, f, now)[k] == i;
                if k < rest.len() {
                    assert(rest.contains(i));
                }
            }
            if i < sessions.len() && passes(sessions[i as int], f, now) && i < init.len() {
                assert(rest.contains(i));
                let k = choose|k: int| 0 <= k < rest.len() && rest[k] == i;
                assert(filtered(sessions, f, now)[k] == i);
            }
            if i == sessions.len() - 1 && passes(sessions[i as int], f, now) {
                assert(filtered(sessions, f, now)[rest.len() as int] == i);
            }
        }
    }
}

/// The cursor after the projection changed to `len` entries: kept when still
/// inside, else moved to the last entry (0 when empty).
pub open spec fn clamped(cursor: usize, len: nat) -> usize {
    if cursor >= len {
        if len > 0 {
            (len - 1) as usize
        } else {
            0
        }
    } else {
        cursor
    }
}

/// `new` is `old` with the filters reapplied at time `now`.
pub open spec fn filters_applied(old: UiState, new: UiState, now: i64) -> bool {
    &&& new.filtered_indices@ == filtered(old.sessions@, old.filter, now)
    &&& new.cursor == clamped(old.cursor, new.filtered_indices@.len())
    &&& new.scroll_offset == 0
    &&& new.sessions == old.sessions
    &&& new.selected == old.selected
    &&& new.filter == old.filter
    &&& new.projects == old.projects
    &&& new.project_filter_index == old.project_filter_index
    &&& new.sort_field == old.sort_field
    &&& new.sort_reversed == old.sort_reversed
}

/// The state's invariant: the projection names sessions, the cursor lies in
/// the projection (0 when empty), and only sessions are selected.
pub open spec fn state_wf(s: UiState) -> bool {
    &&& forall|k: int|
        0 <= k < s.filtered_indices@.len() ==> #[trigger] s.filtered_indices@[k] < s.sessions@.len()
    &&& s.filtered_indices@.len() == 0 ==> s.cursor == 0
    &&& s.filtered_indices@.len() > 0 ==> s.cursor < s.filtered_indices@.len()
    &&& forall|i: usize| #[trigger] s.selected@.contains(i) ==> i < s.sessions@.len()
}

/// Relies on `chrono::Utc::now` and `DateTime::timestamp_millis`: the current
/// time, in milliseconds since the Unix epoch. Nothing is known of its value.
#[verifier::external_body]
pub(crate) fn now_millis() -> (r: i64) {
    chrono::Utc::now().timestamp_millis()
}

/// Whole days from `modified` to `now`, truncated toward zero.
pub fn days_since(now: i64, modified: i64) -> (r: i128)
    ensures
        r as int == days_between(now, modified),
{
    let d: i128 = now as i128 - modified as i128;
    if d >= 0 {
        d / DAY_MS
    } else {
        let m: i128 = -d;
        -(m / DAY_MS)
    }
}

/// Whether a session passes the filters; `query_lower` is the lowercased query.
pub fn session_passes(s: &Session, f: &Filter, query_lower: &String, now: i64) -> (r: bool)
    requires
        query_lower@ == lower_of(f.query@),
    ensures
        r == passes(*s, *f, now),
{
    if let Some(p) = &f.project {
        if !s.project.eq(p) {
            return false;
        }
    }
    if let Some(days) = f.age_days {
        if days_since(now, s.modified) < days as i128 {
            return false;
        }
    }
    if query_lower.as_str().unicode_len() > 0 {
        let hit = match &s.search_content {
            Some(c) => contains_str(c.as_str(), query_lower.as_str()),
            None => {
                proof {
                    reveal_strlit(" ");
                }
                let mut text = s.project.clone();
                text.append(" ");
                text.append(s.id.as_str());
                text.append(" ");
                match &s.summary {
                    Some(x) => text.append(x.as_str()),
                    None => {},
                }
                text.append(" ");
                match &s.first_message {
                    Some(x) => text.append(x.as_str()),
                    None => {},
                }
                assert(text@ =~= fallback_text(*s));
                let lower = to_lower(text.as_str());
                contains_str(lower.as_str(), query_lower.as_str())
            },
        };
        if !hit {
            return false;
        }
    }
    true
}

impl UiState {
    /// A fresh state over the sessions: everything shown, in collection order.
    pub fn new(sessions: Vec<Session>) -> (r: UiState)
        ensures
            r.sessions@ == sessions@,
            r.filtered_indices@.len() == sessions@.len(),
            forall|k: int| 0 <= k < sessions@.len() ==> #[trigger] r.filtered_indices@[k] == k,
            r.cursor == 0,
            r.scroll_offset == 0,
            r.selected@.is_empty(),
            r.view == View::List,
            r.sort_field == SortField::Date,
            !r.sort_reversed,
            r.project_filter_index == 0,
            r.filter.query@.len() == 0 && r.filter.project is None && r.filter.age_days is None,
            strictly_ascending(r.projects@),
            forall|name: Seq<char>| holds_name(r.projects@, name) <==> has_project(sessions@, name),
            state_wf(r),
    {
        let projects = get_project_names(&sessions);
        let mut filtered_indices: Vec<usize> = Vec::new();
        let mut i: usize = 0;
        while i < sessions.len()
            invariant
                i <= sessions.len(),
                filtered_indices@.len() == i,
                forall|k: int| 0 <= k < i ==> #[trigger] filtered_indices@[k] == k,
            decreases sessions.len() - i,
        {
            filtered_indices.push(i);
            i = i + 1;
        }
        UiState {
            view: View::List,
            sessions,
            filtered_indices,
            cursor: 0,
            scroll_offset: 0,
            selected: HashSet::new(),
            select_mode: false,
            filter: Filter::none(),
            preview_scroll: 0,
            preview_lines: Vec::new(),
            preview_search: String::new(),
            preview_search_active: false,
            preview_matches: Vec::new(),
            preview_match_index: 0,
            dialog_message: None,
            dialog_action: None,
            status_message: None,
            projects,
            project_filter_index: 0,
            sort_field: SortField::Date,
            sort_reversed: false,
        }
    }

    /// Recomputes the projection for the filters at time `now`, clamps the
    /// cursor and resets the scroll offset. The projection comes out in
    /// collection order.
    pub fn apply_filters_at(&mut self, now: i64)
        ensures
            filters_applied(*old(self), *final(self), now),
            state_wf(*old(self)) ==> state_wf(*final(self)),
            forall|i: usize| #[trigger] final(self).selected@.contains(i) ==> old(self).selected@.contains(i),
    {
        let query_lower = to_lower(self.filter.query.as_str());
        let mut out: Vec<usize> = Vec::new();
        let mut i: usize = 0;
        while i < self.sessions.len()
            invariant
                i <= self.sessions.len(),
                self == old(self),
                query_lower@ == lower_of(self.filter.query@),
                out@ == filtered(self.sessions@.take(i as int), self.filter, now),
            decreases self.sessions.len() - i,
        {
            assert(self.sessions@.take(i as int + 1).drop_last() =~= self.sessions@.take(i as int));
            if session_passes(&self.sessions[i], &self.filter, &query_lower, now) {
                out.push(i);
            }
            i = i + 1;
        }
        assert(self.sessions@.take(self.sessions.len() as int) =~= self.sessions@);
        proof {
            lemma_filtered_members(self.sessions@, self.filter, now);
        }
        self.filtered_indices = out;
        if self.cursor >= self.filtered_indices.len() {
            self.cursor = self.filtered_indices.len().saturating_sub(1);
        }
        self.scroll_offset = 0;
    }

    /// Recomputes the projection for the filters at the current time.
    pub fn apply_filters(&mut self)
        ensures
            exists|now: i64| filters_applied(*old(self), *final(self), now),
            state_wf(*old(self)) ==> state_wf(*final(self)),
    {
        let now = now_millis();
        self.apply_filters_at(now);
    }
}

/// Three-way comparison of integers.
pub open spec fn int_cmp(a: int, b: int) -> int {
    if a < b {
        -1
    } else if a > b {
        1
    } else {
        0
    }
}

/// The name a session sorts by: its summary, else its first message, else nothing.
pub open spec fn name_key(s: Session) -> Seq<char> {
    match s.summary {
        Some(x) => x@,
        None => or_empty(s.first_message),
    }
}

/// How sessions `a` and `b` compare under a sort key: newest first by date,
/// largest first by size, ascending by project or name.
pub open spec fn key_cmp(sessions: Seq<Session>, field: SortField, a: usize, b: usize) -> int {
    match field {
        SortField::Date => int_cmp(sessions[b as int].modified as int, sessions[a as int].modified as int),
        SortField::Size => int_cmp(
            sessions[b as int].size_bytes as int,
            sessions[a as int].size_bytes as int,
        ),
        SortField::Project => lex_cmp(sessions[a as int].project@, sessions[b as int].project@),
        SortField::Name => lex_cmp(name_key(sessions[a as int]), name_key(sessions[b as int])),
    }
}

/// The comparison, inverted when the order is reversed.
pub open spec fn order_cmp(
    sessions: Seq<Session>,
    field: SortField,
    reversed: bool,
    a: usize,
    b: usize,
) -> int {
    if reversed {
        -key_cmp(sessions, field, a, b)
    } else {
        key_cmp(sessions, field, a, b)
    }
}

/// Each index of `v` is ordered no later than the next.
pub open spec fn sorted_by(v: Seq<usize>, sessions: Seq<Session>, field: SortField, reversed: bool) -> bool {
    forall|k: int|
        0 <= k < v.len() - 1 ==> order_cmp(sessions, field, reversed, #[trigger] v[k], v[k + 1]) <= 0
}

/// Swapping two sessions negates their comparison.
pub proof fn lemma_order_antisymmetric(
    sessions: Seq<Session>,
    field: SortField,
    reversed: bool,
    a: usize,
    b: usize,
)
    ensures
        order_cmp(sessions, field, reversed, a, b) == -order_cmp(sessions, field, reversed, b, a),
{
    match field {
        SortField::Project => lemma_lex_cmp_antisymmetric(
            sessions[a as int].project@,
            sessions[b as int].project@,
        ),
        SortField::Name => lemma_lex_cmp_antisymmetric(
            name_key(sessions[a as int]),
            name_key(sessions[b as int]),
        ),
        _ => {},
    }
}

/// `new` is `old` with its projection re-sorted: the same indices, each
/// occurring as often as before, now in order; nothing else changes.
pub open spec fn sort_applied(old: UiState, new: UiState) -> bool {
    &&& new.filtered_indices@.to_multiset() == old.filtered_indices@.to_multiset()
    &&& sorted_by(new.filtered_indices@, old.sessions@, old.sort_field, old.sort_reversed)
    &&& new.cursor == clamped(old.cursor, new.filtered_indices@.len())
    &&& new.sessions == old.sessions
    &&& new.selected == old.selected
    &&& new.filter == old.filter
    &&& new.projects == old.projects
    &&& new.project_filter_index == old.project_filter_index
    &&& new.sort_field == old.sort_field
    &&& new.sort_reversed == old.sort_reversed
    &&& new.scroll_offset == old.scroll_offset
}

fn compare_int(a: i128, b: i128) -> (r: i8)
    ensures
        r as int == int_cmp(a as int, b as int),
{
    if a < b {
        -1
    } else if a > b {
        1
    } else {
        0
    }
}

fn name_of(s: &Session) -> (r: &str)
    ensures
        r@ == name_key(*s),
{
    proof {
        reveal_strlit("");
    }
    assert(""@ =~= Seq::<char>::empty());
    match &s.summary {
        Some(x) => x.as_str(),
        None => match &s.first_message {
            Some(x) => x.as_str(),
            None => "",
        },
    }
}

impl UiState {
    /// Compares two sessions by the active sort key and direction.
    fn compare_indices(&self, a: usize, b: usize) -> (r: i8)
        requires
            a < self.sessions@.len(),
            b < self.sessions@.len(),
        ensures
            r as int == order_cmp(self.sessions@, self.sort_field, self.sort_reversed, a, b),
    {
        let sa = &self.sessions[a];
        let sb = &self.sessions[b];
        let c = match self.sort_field {
            SortField::Date => compare_int(sb.modified as i128, sa.modified as i128),
            SortField::Size => compare_int(sb.size_bytes as i128, sa.size_bytes as i128),
            SortField::Project => compare_str(sa.project.as_str(), sb.project.as_str()),
            SortField::Name => {
                proof {
                    reveal_strlit("");
                }
                compare_str(name_of(sa), name_of(sb))
            },
        };
        proof {
            if self.sort_field is Project {
                lemma_lex_cmp_antisymmetric(sa.project@, sb.project@);
            }
            if self.sort_field is Name {
                lemma_lex_cmp_antisymmetric(name_key(*sa), name_key(*sb));
            }
        }
        if self.sort_reversed {
            -c
        } else {
            c
        }
    }

    /// Re-orders the projection (not the collection) by the active sort key
    /// and direction; equal keys keep their relative order.
    pub fn apply_sort(&mut self)
        requires
            forall|k: int|
                0 <= k < old(self).filtered_indices@.len() ==> #[trigger] old(self).filtered_indices@[k]
                    < old(self).sessions@.len(),
        ensures
            sort_applied(*old(self), *final(self)),
            state_wf(*old(self)) ==> state_wf(*final(self)),
    {
        broadcast use vstd::seq_lib::group_to_multiset_ensures;

        let n = self.filtered_indices.len();
        let mut out: Vec<usize> = Vec::new();
        let mut i: usize = 0;
        while i < n
            invariant
                self == old(self),
                n == self.filtered_indices@.len(),
                i <= n,
                forall|k: int|
                    0 <= k < self.filtered_indices@.len() ==> #[trigger] self.filtered_indices@[k]
                        < self.sessions@.len(),
                out@.to_multiset() == self.filtered_indices@.take(i as int).to_multiset(),
                sorted_by(out@, self.sessions@, self.sort_field, self.sort_reversed),
                forall|k: int| 0 <= k < out@.len() ==> #[trigger] out@[k] < self.sessions@.len(),
            decreases n - i,
        {
            let x = self.filtered_indices[i];
            let mut pos: usize = out.len();
            while pos > 0 && self.compare_indices(out[pos - 1], x) > 0
                invariant
                    self == old(self),
                    x < self.sessions@.len(),
                    pos <= out@.len(),
                    forall|k: int| 0 <= k < out@.len() ==> #[trigger] out@[k] < self.sessions@.len(),
                    forall|k: int|
                        pos <= k < out@.len() ==> order_cmp(
                            self.sessions@,
                            self.sort_field,
                            self.sort_reversed,
                            #[trigger] out@[k],
                            x,
                        ) > 0,
                decreases pos,
            {
                pos = pos - 1;
            }
            let ghost before = out@;
            out.insert(pos, x);
            proof {
                let ss = self.sessions@;
                let fld = self.sort_field;
                let rev = self.sort_reversed;
                assert(forall|k: int| 0 <= k < pos ==> out@[k] == before[k]);
                assert(forall|k: int| pos < k < out@.len() ==> out@[k] == before[k - 1]);
                assert forall|k: int| 0 <= k < out@.len() - 1 implies order_cmp(
                    ss,
                    fld,
                    rev,
                    #[trigger] out@[k],
                    out@[k + 1],
                ) <= 0 by {
                    if k + 1 < pos {
                        assert(out@[k] == before[k] && out@[k + 1] == before[k + 1]);
                    } else if k == pos {
                        lemma_order_antisymmetric(ss, fld, rev, before[k], x);
                    } else if k > pos {
                        assert(out@[k] == before[k - 1] && out@[k + 1] == before[k]);
                    }
                }
                assert(self.filtered_indices@.take(i as int + 1) =~= self.filtered_indices@.take(
                    i as int,
                ).push(x));
                vstd::seq_lib::to_multiset_insert(before, pos as int, x);
                vstd::seq_lib::to_multiset_build(self.filtered_indices@.take(i as int), x);
            }
            i = i + 1;
        }
        assert(self.filtered_indices@.take(n as int) =~= self.filtered_indices@);
        self.filtered_indices = out;
        if self.cursor >= self.filtered_indices.len() {
            self.cursor = self.filtered_indices.len().saturating_sub(1);
        }
        proof {
            vstd::seq_lib::to_multiset_len(self.filtered_indices@);
            vstd::seq_lib::to_multiset_len(old(self).filtered_indices@);
            assert forall|k: int|
                0 <= k < self.filtered_indices@.len() implies #[trigger] self.filtered_indices@[k]
                < self.sessions@.len() by {
                assert(out@[k] < self.sessions@.len());
            }
        }
    }
}

/// The rows visible before the interface reports its real height.
pub const DEFAULT_VISIBLE_ROWS: usize = 20;

/// The scroll offset that keeps `cursor` within `height` visible rows.
pub open spec fn scrolled(cursor: usize, offset: usize, height: usize) -> usize {
    if cursor < offset {
        cursor
    } else if cursor >= offset + height {
        (cursor - height + 1) as usize
    } else {
        offset
    }
}

/// The position of the previous page: `page` rows up, stopping at the top.
pub open spec fn paged_up(cursor: usize, page: usize) -> usize {
    if cursor >= page {
        (cursor - page) as usize
    } else {
        0
    }
}

/// The position of the next page: `page` rows down, stopping at the last row.
pub open spec fn paged_down(cursor: usize, page: usize, len: nat) -> usize {
    let last: int = if len > 0 {
        len - 1
    } else {
        0
    };
    if cursor + page <= last {
        (cursor + page) as usize
    } else {
        last as usize
    }
}

/// Only the cursor and scroll offset differ.
pub open spec fn moved_only(old: UiState, new: UiState) -> bool {
    &&& new.sessions == old.sessions
    &&& new.filtered_indices == old.filtered_indices
    &&& new.selected == old.selected
    &&& new.filter == old.filter
    &&& new.projects == old.projects
    &&& new.sort_field == old.sort_field
    &&& new.sort_reversed == old.sort_reversed
}

impl UiState {
    fn adjust_scroll(&mut self)
        ensures
            final(self).scroll_offset == scrolled(
                old(self).cursor,
                old(self).scroll_offset,
                DEFAULT_VISIBLE_ROWS,
            ),
            final(self).cursor == old(self).cursor,
            moved_only(*old(self), *final(self)),
    {
        if self.cursor < self.scroll_offset {
            self.scroll_offset = self.cursor;
        } else if self.cursor - self.scroll_offset >= DEFAULT_VISIBLE_ROWS {
            self.scroll_offset = self.cursor - DEFAULT_VISIBLE_ROWS + 1;
        }
    }

    /// The index in the collection of the session under the cursor.
    pub fn current_session_index(&self) -> (r: Option<usize>)
        ensures
            r == if self.cursor < self.filtered_indices@.len() {
                Some(self.filtered_indices@[self.cursor as int])
            } else {
                None
            },
    {
        if self.cursor < self.filtered_indices.len() {
            Some(self.filtered_indices[self.cursor])
        } else {
            None
        }
    }

    /// The session under the cursor.
    pub fn current_session(&self) -> (r: Option<&Session>)
        ensures
            match r {
                Some(s) => self.cursor < self.filtered_indices@.len()
                    && self.filtered_indices@[self.cursor as int] < self.sessions@.len() && *s
                    == self.sessions@[self.filtered_indices@[self.cursor as int] as int],
                None => !(self.cursor < self.filtered_indices@.len()
                    && self.filtered_indices@[self.cursor as int] < self.sessions@.len()),
            },
    {
        match self.current_session_index() {
            Some(idx) => if idx < self.sessions.len() {
                Some(&self.sessions[idx])
            } else {
                None
            },
            None => None,
        }
    }

    /// Moves the cursor one row up, stopping at the top.
    pub fn cursor_up(&mut self)
        ensures
            final(self).cursor == if old(self).cursor > 0 {
                (old(self).cursor - 1) as usize
            } else {
                old(self).cursor
            },
            old(self).cursor > 0 ==> final(self).scroll_offset == scrolled(
                final(self).cursor,
                old(self).scroll_offset,
                DEFAULT_VISIBLE_ROWS,
            ),
            old(self).cursor == 0 ==> final(self).scroll_offset == old(self).scroll_offset,
            moved_only(*old(self), *final(self)),
            state_wf(*old(self)) ==> state_wf(*final(self)),
    {
        if self.cursor > 0 {
            self.cursor = self.cursor - 1;
            self.adjust_scroll();
        }
    }

    /// Moves the cursor one row down, stopping at the last row.
    pub fn cursor_down(&mut self)
        ensures
            final(self).cursor == if old(self).cursor + 1 < old(self).filtered_indices@.len() {
                (old(self).cursor + 1) as usize
            } else {
                old(self).cursor
            },
            old(self).cursor + 1 < old(self).filtered_indices@.len() ==> final(self).scroll_offset
                == scrolled(final(self).cursor, old(self).scroll_offset, DEFAULT_VISIBLE_ROWS),
            old(self).cursor + 1 >= old(self).filtered_indices@.len() ==> final(self).scroll_offset
                == old(self).scroll_offset,
            moved_only(*old(self), *final(self)),
            state_wf(*old(self)) ==> state_wf(*final(self)),
    {
        let len = self.filtered_indices.len();
        if len > 0 && self.cursor < len - 1 {
            self.cursor = self.cursor + 1;
            self.adjust_scroll();
        }
    }

    /// Moves the cursor to the first row.
    pub fn cursor_top(&mut self)
        ensures
            final(self).cursor == 0,
            final(self).scroll_offset == 0,
            moved_only(*old(self), *final(self)),
            state_wf(*old(self)) ==> state_wf(*final(self)),
    {
        self.cursor = 0;
        self.scroll_offset = 0;
    }

    /// Moves the cursor to the last row, if there is one.
    pub fn cursor_bottom(&mut self)
        ensures
            old(self).filtered_indices@.len() > 0 ==> final(self).cursor == old(self).filtered_indices@.len() - 1 && final(self).scroll_offset == scrolled(
                final(self).cursor,
                old(self).scroll_offset,
                DEFAULT_VISIBLE_ROWS,
            ),
            old(self).filtered_indices@.len() == 0 ==> final(self).cursor == old(self).cursor
                && final(self).scroll_offset == old(self).scroll_offset,
            moved_only(*old(self), *final(self)),
            state_wf(*old(self)) ==> state_wf(*final(self)),
    {
        if self.filtered_indices.len() > 0 {
            self.cursor = self.filtered_indices.len() - 1;
            self.adjust_scroll();
        }
    }

    /// Moves the cursor `page_size` rows up, stopping at the top.
    pub fn page_up(&mut self, page_size: usize)
        ensures
            final(self).cursor == paged_up(old(self).cursor, page_size),
            final(self).scroll_offset == scrolled(
                final(self).cursor,
                old(self).scroll_offset,
                DEFAULT_VISIBLE_ROWS,
            ),
            moved_only(*old(self), *final(self)),
            state_wf(*old(self)) ==> state_wf(*final(self)),
    {
        self.cursor = self.cursor.saturating_sub(page_size);
        self.adjust_scroll();
    }

    /// Moves the cursor `page_size` rows down, stopping at the last row.
    pub fn page_down(&mut self, page_size: usize)
        ensures
            final(self).cursor == paged_down(
                old(self).cursor,
                page_size,
                old(self).filtered_indices@.len(),
            ),
            final(self).scroll_offset == scrolled(
                final(self).cursor,
                old(self).scroll_offset,
                DEFAULT_VISIBLE_ROWS,
            ),
            moved_only(*old(self), *final(self)),
            state_wf(*old(self)) ==> state_wf(*final(self)),
    {
        let max = self.filtered_indices.len().saturating_sub(1);
        let target = self.cursor.saturating_add(page_size);
        self.cursor = if target < max {
            target
        } else {
            max
        };
        self.adjust_scroll();
    }

    /// Adopts the real number of visible rows, scrolling so the cursor stays visible.
    pub fn set_visible_height(&mut self, height: usize)
        requires
            height > 0,
        ensures
            final(self).scroll_offset == if old(self).cursor >= old(self).scroll_offset + height {
                (old(self).cursor - (height - 1)) as usize
            } else {
                old(self).scroll_offset
            },
            final(self).cursor == old(self).cursor,
            moved_only(*old(self), *final(self)),
    {
        if self.cursor >= self.scroll_offset && self.cursor - self.scroll_offset >= height {
            self.scroll_offset = self.cursor.saturating_sub(height - 1);
        }
    }

    /// Selects the session under the cursor, or deselects it if it was selected.
    pub fn toggle_selection(&mut self)
        ensures
            old(self).cursor < old(self).filtered_indices@.len() ==> {
                let idx = old(self).filtered_indices@[old(self).cursor as int];
                final(self).selected@ == if old(self).selected@.contains(idx) {
                    old(self).selected@.remove(idx)
                } else {
                    old(self).selected@.insert(idx)
                }
            },
            old(self).cursor >= old(self).filtered_indices@.len() ==> final(self).selected@ == old(self).selected@,
            final(self).sessions == old(self).sessions,
            final(self).filtered_indices == old(self).filtered_indices,
            final(self).cursor == old(self).cursor,
            final(self).filter == old(self).filter,
            state_wf(*old(self)) ==> state_wf(*final(self)),
    {
        broadcast use vstd::std_specs::hash::group_hash_axioms;

        if let Some(idx) = self.current_session_index() {
            if self.selected.contains(&idx) {
                self.selected.remove(&idx);
            } else {
                self.selected.insert(idx);
            }
        }
    }

    /// Adds every session of the projection to the selection.
    pub fn select_all(&mut self)
        ensures
            forall|i: usize|
                #[trigger] final(self).selected@.contains(i) <==> (old(self).selected@.contains(i)
                    || old(self).filtered_indices@.contains(i)),
            final(self).sessions == old(self).sessions,
            final(self).filtered_indices == old(self).filtered_indices,
            final(self).cursor == old(self).cursor,
            final(self).filter == old(self).filter,
            state_wf(*old(self)) ==> state_wf(*final(self)),
    {
        broadcast use vstd::std_specs::hash::group_hash_axioms;

        let mut i: usize = 0;
        while i < self.filtered_indices.len()
            invariant
                i <= self.filtered_indices@.len(),
                self.sessions == old(self).sessions,
                self.filtered_indices == old(self).filtered_indices,
                self.cursor == old(self).cursor,
                self.filter == old(self).filter,
                self.scroll_offset == old(self).scroll_offset,
                forall|j: usize|
                    #[trigger] self.selected@.contains(j) <==> (old(self).selected@.contains(j)
                        || self.filtered_indices@.take(i as int).contains(j)),
            decreases self.filtered_indices@.len() - i,
        {
            let idx = self.filtered_indices[i];
            self.selected.insert(idx);
            proof {
                let t = self.filtered_indices@.take(i as int + 1);
                assert(t =~= self.filtered_indices@.take(i as int).push(idx));
                assert forall|j: usize|
                    self.filtered_indices@.take(i as int).contains(j) || j == idx
                        <==> #[trigger] t.contains(j) by {
                    if t.contains(j) && j != idx {
                        let k = choose|k: int| 0 <= k < t.len() && t[k] == j;
                        assert(self.filtered_indices@.take(i as int)[k] == j);
                    }
                    if self.filtered_indices@.take(i as int).contains(j) {
                        let k = choose|k: int|
                            0 <= k < i && self.filtered_indices@.take(i as int)[k] == j;
                        assert(t[k] == j);
                    }
                    if j == idx {
                        assert(t[i as int] == j);
                    }
                }
            }
            i = i + 1;
        }
        assert(self.filtered_indices@.take(self.filtered_indices@.len() as int)
            =~= self.filtered_indices@);
    }

    /// Empties the selection.
    pub fn clear_selection(&mut self)
        ensures
            final(self).selected@.is_empty(),
            final(self).sessions == old(self).sessions,
            final(self).filtered_indices == old(self).filtered_indices,
            final(self).cursor == old(self).cursor,
            final(self).filter == old(self).filter,
            state_wf(*old(self)) ==> state_wf(*final(self)),
    {
        self.selected.clear();
    }

    /// Whether the session at `idx` in the collection is selected.
    pub fn is_selected(&self, idx: usize) -> (r: bool)
        ensures
            r == self.selected@.contains(idx),
    {
        broadcast use vstd::std_specs::hash::group_hash_axioms;

        self.selected.contains(&idx)
    }
}


/// The selected indices of the collection, ascending, among the first `n`.
pub open spec fn selected_upto(sel: Set<usize>, n: nat) -> Seq<usize>
    decreases n,
{
    if n == 0 {
        Seq::empty()
    } else {
        let rest = selected_upto(sel, (n - 1) as nat);
        if sel.contains((n - 1) as usize) {
            rest.push((n - 1) as usize)
        } else {
            rest
        }
    }
}

/// The status line after a sort change: key and direction.
pub open spec fn sort_status_text(field: SortField, reversed: bool) -> Seq<char> {
    "Sort: "@ + match field {
        SortField::Date => "Date"@,
        SortField::Size => "Size"@,
        SortField::Project => "Project"@,
        SortField::Name => "Name"@,
    } + " "@ + if reversed {
        "\u{2191}"@
    } else {
        "\u{2193}"@
    }
}

/// The sessions of the collection kept when the indices in `set` are removed,
/// looking from position `lo` on.
pub open spec fn kept_from(s: Seq<Session>, set: Set<usize>, lo: int) -> Seq<Session>
    decreases s.len() - lo,
{
    if lo < 0 || lo >= s.len() {
        Seq::empty()
    } else {
        (if set.contains(lo as usize) {
            Seq::empty()
        } else {
            seq![s[lo]]
        }) + kept_from(s, set, lo + 1)
    }
}

/// The collection without the sessions at the indices in `set`, in order.
pub open spec fn kept(s: Seq<Session>, set: Set<usize>) -> Seq<Session> {
    kept_from(s, set, 0)
}

/// `new` is `old` after removing the sessions at `set`: the selection is
/// cleared, the filters reapplied and the project list rebuilt.
pub open spec fn removal_applied(old: UiState, new: UiState, set: Set<usize>) -> bool {
    &&& new.sessions@ == kept(old.sessions@, set)
    &&& new.selected@.is_empty()
    &&& exists|now: i64| #[trigger] filtered(new.sessions@, new.filter, now) == new.filtered_indices@
    &&& new.cursor == clamped(old.cursor, new.filtered_indices@.len())
    &&& new.scroll_offset == 0
    &&& new.filter == old.filter
    &&& project_index_relocated(old.filter.project, new.projects@, new.project_filter_index)
    &&& new.sort_field == old.sort_field
    &&& new.sort_reversed == old.sort_reversed
    &&& strictly_ascending(new.projects@)
    &&& forall|name: Seq<char>| holds_name(new.projects@, name) <==> has_project(new.sessions@, name)
}

/// After the project list changed, the cycling index points at the filtered
/// project when that project is still listed, and is 0 otherwise (the next
/// step of the cycle then starts from the first project).
pub open spec fn project_index_relocated(
    filter: Option<String>,
    projects: Seq<String>,
    idx: usize,
) -> bool {
    if filter is Some && holds_name(projects, filter->0@) {
        &&& 0 < idx <= projects.len()
        &&& projects[idx - 1]@ == filter->0@
    } else {
        idx == 0
    }
}

/// The position of the project named `name` in `projects`, if listed.
fn find_project(projects: &Vec<String>, name: &String) -> (r: Option<usize>)
    ensures
        match r {
            Some(k) => k < projects@.len() && projects@[k as int]@ == name@,
            None => !holds_name(projects@, name@),
        },
{
    let mut k: usize = 0;
    while k < projects.len()
        invariant
            k <= projects@.len(),
            forall|j: int| 0 <= j < k ==> #[trigger] projects@[j]@ != name@,
        decreases projects@.len() - k,
    {
        if projects[k].eq(name) {
            return Some(k);
        }
        k = k + 1;
    }
    None
}

/// The list, its projection and the preview stay as they were.
pub open spec fn list_unchanged(old: UiState, new: UiState) -> bool {
    &&& new.sessions == old.sessions
    &&& new.filtered_indices == old.filtered_indices
    &&& new.selected == old.selected
    &&& new.cursor == old.cursor
    &&& new.filter == old.filter
    &&& new.preview_lines == old.preview_lines
    &&& new.preview_search == old.preview_search
    &&& new.sort_field == old.sort_field
    &&& new.sort_reversed == old.sort_reversed
    &&& new.projects == old.projects
    &&& new.project_filter_index == old.project_filter_index
    &&& new.scroll_offset == old.scroll_offset
}

fn sort_status(field: SortField, reversed: bool) -> (r: String)
    ensures
        r@ == sort_status_text(field, reversed),
{
    let mut out = String::from_str("Sort: ");
    out.append(field.as_str());
    out.append(" ");
    if reversed {
        out.append("\u{2191}");
    } else {
        out.append("\u{2193}");
    }
    out
}

impl UiState {
    /// The selected sessions, in collection order; selected indices that no
    /// longer name a session are passed over.
    pub fn get_selected_sessions(&self) -> (r: Vec<&Session>)
        ensures
            r@.len() == selected_upto(self.selected@, self.sessions@.len()).len(),
            forall|k: int|
                0 <= k < r@.len() ==> *(#[trigger] r@[k]) == self.sessions@[selected_upto(
                    self.selected@,
                    self.sessions@.len(),
                )[k] as int],
    {
        broadcast use vstd::std_specs::hash::group_hash_axioms;

        let mut out: Vec<&Session> = Vec::new();
        let mut i: usize = 0;
        while i < self.sessions.len()
            invariant
                i <= self.sessions@.len(),
                out@.len() == selected_upto(self.selected@, i as nat).len(),
                forall|k: int| 0 <= k < out@.len() ==> #[trigger] selected_upto(self.selected@, i as nat)[k] < i,
                forall|k: int|
                    0 <= k < out@.len() ==> *(#[trigger] out@[k]) == self.sessions@[selected_upto(
                        self.selected@,
                        i as nat,
                    )[k] as int],
            decreases self.sessions@.len() - i,
        {
            assert(((i + 1) as nat - 1) as nat == i as nat);
            if self.selected.contains(&i) {
                out.push(&self.sessions[i]);
            }
            i = i + 1;
        }
        out
    }

    /// Opens a confirmation dialog for `action`.
    pub fn show_confirm(&mut self, message: String, action: DialogAction)
        ensures
            opt_chars_eq(final(self).dialog_message, message),
            final(self).dialog_action == Some(action),
            final(self).view == View::Confirm,
            list_unchanged(*old(self), *final(self)),
    {
        self.dialog_message = Some(message);
        self.dialog_action = Some(action);
        self.view = View::Confirm;
    }

    /// Closes the dialog and returns to the list.
    pub fn clear_dialog(&mut self)
        ensures
            final(self).dialog_message is None,
            final(self).dialog_action is None,
            final(self).view == View::List,
            list_unchanged(*old(self), *final(self)),
    {
        self.dialog_message = None;
        self.dialog_action = None;
        self.view = View::List;
    }

    /// Shows a one-line status message.
    pub fn set_status(&mut self, message: String)
        ensures
            opt_chars_eq(final(self).status_message, message),
            list_unchanged(*old(self), *final(self)),
    {
        self.status_message = Some(message);
    }

    /// Clears the status message.
    pub fn clear_status(&mut self)
        ensures
            final(self).status_message is None,
            list_unchanged(*old(self), *final(self)),
    {
        self.status_message = None;
    }

    /// Steps the project filter through All, then each project in order, and
    /// back to All; the filters are reapplied.
    pub fn cycle_project_filter(&mut self)
        ensures
            final(self).project_filter_index as int == (old(self).project_filter_index as int + 1)
                % (old(self).projects@.len() as int + 1),
            final(self).project_filter_index == 0 ==> final(self).filter.project is None,
            final(self).project_filter_index > 0 ==> opt_chars(final(self).filter.project) == Some(
                old(self).projects@[final(self).project_filter_index - 1]@,
            ),
            final(self).filter.query == old(self).filter.query,
            final(self).filter.age_days == old(self).filter.age_days,
            exists|now: i64|
                #[trigger] filtered(old(self).sessions@, final(self).filter, now)
                    == final(self).filtered_indices@,
            final(self).cursor == clamped(old(self).cursor, final(self).filtered_indices@.len()),
            final(self).scroll_offset == 0,
            final(self).sessions == old(self).sessions,
            final(self).selected == old(self).selected,
            final(self).projects == old(self).projects,
            state_wf(*old(self)) ==> state_wf(*final(self)),
    {
        let len = self.projects.len();
        let next = ((self.project_filter_index as u128 + 1) % (len as u128 + 1)) as usize;
        self.project_filter_index = next;
        if next == 0 {
            self.filter.project = None;
        } else {
            self.filter.project = Some(self.projects[next - 1].clone());
        }
        self.apply_filters();
    }

    /// The name of the active project filter, or "All".
    pub fn current_project_filter(&self) -> (r: &str)
        ensures
            r@ == match self.filter.project {
                Some(p) => p@,
                None => "All"@,
            },
    {
        match &self.filter.project {
            Some(p) => p.as_str(),
            None => "All",
        }
    }

    /// Moves to the next sort key, re-sorts and reports it in the status line.
    pub fn cycle_sort_field(&mut self)
        requires
            forall|k: int|
                0 <= k < old(self).filtered_indices@.len() ==> #[trigger] old(self).filtered_indices@[k]
                    < old(self).sessions@.len(),
        ensures
            final(self).sort_field == next_field(old(self).sort_field),
            final(self).filtered_indices@.to_multiset() == old(self).filtered_indices@.to_multiset(),
            sorted_by(
                final(self).filtered_indices@,
                final(self).sessions@,
                final(self).sort_field,
                final(self).sort_reversed,
            ),
            final(self).sort_reversed == old(self).sort_reversed,
            final(self).sessions == old(self).sessions,
            final(self).cursor == clamped(old(self).cursor, final(self).filtered_indices@.len()),
            final(self).scroll_offset == old(self).scroll_offset,
            final(self).selected == old(self).selected,
            final(self).filter == old(self).filter,
            final(self).projects == old(self).projects,
            final(self).project_filter_index == old(self).project_filter_index,
            opt_chars(final(self).status_message) == Some(
                sort_status_text(final(self).sort_field, final(self).sort_reversed),
            ),
            state_wf(*old(self)) ==> state_wf(*final(self)),
    {
        self.sort_field = self.sort_field.next();
        self.apply_sort();
        let msg = sort_status(self.sort_field, self.sort_reversed);
        self.set_status(msg);
    }

    /// Flips the sort direction, re-sorts and reports it in the status line.
    pub fn toggle_sort_direction(&mut self)
        requires
            forall|k: int|
                0 <= k < old(self).filtered_indices@.len() ==> #[trigger] old(self).filtered_indices@[k]
                    < old(self).sessions@.len(),
        ensures
            final(self).sort_reversed == !old(self).sort_reversed,
            final(self).filtered_indices@.to_multiset() == old(self).filtered_indices@.to_multiset(),
            sorted_by(
                final(self).filtered_indices@,
                final(self).sessions@,
                final(self).sort_field,
                final(self).sort_reversed,
            ),
            final(self).sort_field == old(self).sort_field,
            final(self).sessions == old(self).sessions,
            final(self).cursor == clamped(old(self).cursor, final(self).filtered_indices@.len()),
            final(self).scroll_offset == old(self).scroll_offset,
            final(self).selected == old(self).selected,
            final(self).filter == old(self).filter,
            final(self).projects == old(self).projects,
            final(self).project_filter_index == old(self).project_filter_index,
            opt_chars(final(self).status_message) == Some(
                sort_status_text(final(self).sort_field, final(self).sort_reversed),
            ),
            state_wf(*old(self)) ==> state_wf(*final(self)),
    {
        self.sort_reversed = !self.sort_reversed;
        self.apply_sort();
        let msg = sort_status(self.sort_field, self.sort_reversed);
        self.set_status(msg);
    }
}

impl UiState {
    /// Removes the sessions at the given indices of the collection (from the
    /// highest down, so lower indices stay put), clears the selection,
    /// reapplies the filters and rebuilds the project list.
    pub fn remove_sessions(&mut self, indices: &HashSet<usize>)
        ensures
            removal_applied(*old(self), *final(self), indices@),
            state_wf(*final(self)),
    {
        broadcast use vstd::std_specs::hash::group_hash_axioms;

        let ghost start = self.sessions@;
        let mut k: usize = self.sessions.len();
        assert(start.take(k as int) =~= start);
        while k > 0
            invariant
                k <= start.len(),
                self.sessions@ == start.take(k as int) + kept_from(start, indices@, k as int),
                self.filter == old(self).filter,
                self.cursor == old(self).cursor,
                self.sort_field == old(self).sort_field,
                self.sort_reversed == old(self).sort_reversed,
            decreases k,
        {
            let j = k - 1;
            let ghost rest = kept_from(start, indices@, k as int);
            assert(kept_from(start, indices@, j as int) == (if indices@.contains(j) {
                Seq::empty()
            } else {
                seq![start[j as int]]
            }) + rest);
            if indices.contains(&j) {
                self.sessions.remove(j);
                assert(self.sessions@ =~= start.take(j as int) + kept_from(start, indices@, j as int));
            } else {
                assert(start.take(k as int) =~= start.take(j as int).push(start[j as int]));
                assert(self.sessions@ =~= start.take(j as int) + kept_from(start, indices@, j as int));
            }
            k = j;
        }
        assert(start.take(0) + kept_from(start, indices@, 0) =~= kept_from(start, indices@, 0));
        self.selected.clear();
        self.projects = get_project_names(&self.sessions);
        let found = match &self.filter.project {
            Some(p) => find_project(&self.projects, p),
            None => None,
        };
        let listed = self.projects.len();
        match found {
            Some(k) => {
                assert(k < listed);
                self.project_filter_index = k + 1;
            },
            None => {
                self.project_filter_index = 0;
            },
        }
        self.apply_filters();
        let total = self.sessions.len();
        proof {
            assert(self.sessions@.len() == total);
            let now = choose|now: i64|
                #[trigger] filtered(self.sessions@, self.filter, now) == self.filtered_indices@;
            lemma_filtered_members(self.sessions@, self.filter, now);
        }
    }
}

/// Removing exactly the index `i` from position `lo` on keeps everything
/// else, in order.
proof fn lemma_kept_from_single(s: Seq<Session>, i: usize, lo: int)
    requires
        0 <= lo <= s.len(),
        i < s.len(),
        s.len() <= usize::MAX,
    ensures
        kept_from(s, set![i], lo) == if lo <= i {
            s.subrange(lo, s.len() as int).remove(i - lo)
        } else {
            s.subrange(lo, s.len() as int)
        },
    decreases s.len() - lo,
{
    if lo < s.len() {
        lemma_kept_from_single(s, i, lo + 1);
        if lo == i {
            assert(set![i].contains(lo as usize));
            assert(s.subrange(lo, s.len() as int).remove(0) =~= s.subrange(lo + 1, s.len() as int));
        } else {
            assert(!set![i].contains(lo as usize));
            if lo < i {
                assert(seq![s[lo]] + s.subrange(lo + 1, s.len() as int).remove(i - lo - 1)
                    =~= s.subrange(lo, s.len() as int).remove(i - lo));
            } else {
                assert(seq![s[lo]] + s.subrange(lo + 1, s.len() as int) =~= s.subrange(
                    lo,
                    s.len() as int,
                ));
            }
        }
    } else {
        assert(kept_from(s, set![i], lo) =~= s.subrange(lo, s.len() as int));
    }
}

/// Reapplying the filters at the same time changes nothing more: the
/// projection, cursor and scroll offset stay as the first application left them.
pub proof fn lemma_filters_idempotent(a: UiState, b: UiState, c: UiState, now: i64)
    requires
        filters_applied(a, b, now),
        filters_applied(b, c, now),
    ensures
        c.filtered_indices@ == b.filtered_indices@,
        c.cursor == b.cursor,
        c.scroll_offset == b.scroll_offset,
        c.sessions == b.sessions,
        c.selected == b.selected,
{
}

/// The filtered indices come out strictly ascending: collection order.
pub proof fn lemma_filtered_ascending(sessions: Seq<Session>, f: Filter, now: i64)
    requires
        sessions.len() <= usize::MAX,
    ensures
        forall|i: int, j: int|
            0 <= i < j < filtered(sessions, f, now).len() ==> #[trigger] filtered(sessions, f, now)[i]
                < #[trigger] filtered(sessions, f, now)[j],
    decreases sessions.len(),
{
    if sessions.len() > 0 {
        let init = sessions.drop_last();
        lemma_filtered_ascending(init, f, now);
        lemma_filtered_members(init, f, now);
        let rest = filtered(init, f, now);
        let all = filtered(sessions, f, now);
        assert(all == if passes(sessions.last(), f, now) {
            rest.push((sessions.len() - 1) as usize)
        } else {
            rest
        });
        assert forall|i: int, j: int| 0 <= i < j < all.len() implies #[trigger] all[i] < #[trigger] all[j] by {
            if j < rest.len() {
                assert(all[i] == rest[i] && all[j] == rest[j]);
            } else {
                assert(all[i] == rest[i]);
                assert(rest[i] < init.len());
            }
        }
    }
}

/// Three sessions whose modification times strictly decrease in collection
/// order: a date sort of the whole collection puts them newest first, and the
/// reversed sort oldest first.
pub proof fn lemma_date_sort_three(b: UiState, c: UiState)
    requires
        b.sessions@.len() == 3,
        b.sessions@[0].modified > b.sessions@[1].modified > b.sessions@[2].modified,
        b.filtered_indices@.to_multiset() == seq![0usize, 1, 2].to_multiset(),
        b.sort_field == SortField::Date,
        sort_applied(b, c),
    ensures
        !b.sort_reversed ==> c.filtered_indices@ == seq![0usize, 1, 2],
        b.sort_reversed ==> c.filtered_indices@ == seq![2usize, 1, 0],
{
    let v = c.filtered_indices@;
    let w = seq![0usize, 1, 2];
    vstd::seq_lib::to_multiset_len(v);
    vstd::seq_lib::to_multiset_len(w);
    assert(v.len() == 3);
    assert forall|x: usize| v.contains(x) <==> w.contains(x) by {
        vstd::seq_lib::to_multiset_contains(v, x);
        vstd::seq_lib::to_multiset_contains(w, x);
    }
    assert(w[0] == 0 && w[1] == 1 && w[2] == 2);
    assert(w.contains(0usize) && w.contains(1usize) && w.contains(2usize));
    assert(v.contains(v[0]) && v.contains(v[1]) && v.contains(v[2]));
    assert(v[0] < 3 && v[1] < 3 && v[2] < 3);
    let ss = b.sessions@;
    let rev = b.sort_reversed;
    assert(order_cmp(ss, SortField::Date, rev, v[0], v[1]) <= 0);
    assert(order_cmp(ss, SortField::Date, rev, v[1], v[2]) <= 0);
    assert(v.contains(0usize) && v.contains(1usize) && v.contains(2usize));
    if !rev {
        assert(v =~= w);
    } else {
        assert(v =~= seq![2usize, 1, 0]);
    }
}

/// Filtering again after a sort drops the sort order: the projection is the
/// same set of indices, now strictly ascending, so position 0 holds the
/// least matching index rather than the first in sort order.
pub proof fn lemma_refilter_after_sort(a: UiState, b: UiState, c: UiState, d: UiState, now: i64)
    requires
        a.sessions@.len() <= usize::MAX,
        filters_applied(a, b, now),
        sort_applied(b, c),
        filters_applied(c, d, now),
    ensures
        forall|i: int, j: int|
            0 <= i < j < d.filtered_indices@.len() ==> #[trigger] d.filtered_indices@[i]
                < #[trigger] d.filtered_indices@[j],
        forall|k: usize| d.filtered_indices@.contains(k) <==> c.filtered_indices@.contains(k),
{
    lemma_filter_then_sort_membership(a, b, c, now);
    lemma_filtered_members(c.sessions@, c.filter, now);
    lemma_filtered_ascending(c.sessions@, c.filter, now);
}

/// Sorting after filtering never changes which sessions the projection
/// holds, nor how often: exactly those that pass the filters.
pub proof fn lemma_filter_then_sort_membership(a: UiState, b: UiState, c: UiState, now: i64)
    requires
        a.sessions@.len() <= usize::MAX,
        filters_applied(a, b, now),
        sort_applied(b, c),
    ensures
        c.filtered_indices@.to_multiset() == b.filtered_indices@.to_multiset(),
        forall|i: usize|
            c.filtered_indices@.contains(i) <==> (i < a.sessions@.len() && passes(
                a.sessions@[i as int],
                a.filter,
                now,
            )),
{
    lemma_filtered_members(a.sessions@, a.filter, now);
    assert forall|i: usize|
        c.filtered_indices@.contains(i) <==> (i < a.sessions@.len() && passes(
            a.sessions@[i as int],
            a.filter,
            now,
        )) by {
        vstd::seq_lib::to_multiset_contains(c.filtered_indices@, i);
        vstd::seq_lib::to_multiset_contains(b.filtered_indices@, i);
    }
}

/// Removing the session at `i` and reapplying the filters leaves nothing
/// selected, drops exactly that entry from the collection, and keeps the
/// projection inside the shrunk collection; so `i` is unreachable when it
/// was the last index.
pub proof fn lemma_remove_then_filter(
    a: UiState,
    b: UiState,
    c: UiState,
    i: usize,
    set: Set<usize>,
    now: i64,
)
    requires
        a.sessions@.len() <= usize::MAX,
        i < a.sessions@.len(),
        set == set![i],
        removal_applied(a, b, set),
        filters_applied(b, c, now),
    ensures
        !c.selected@.contains(i),
        c.sessions@ == a.sessions@.remove(i as int),
        forall|k: int|
            0 <= k < c.filtered_indices@.len() ==> #[trigger] c.filtered_indices@[k]
                < c.sessions@.len(),
        i == a.sessions@.len() - 1 ==> !c.filtered_indices@.contains(i),
{
    lemma_kept_from_single(a.sessions@, i, 0);
    assert(a.sessions@.subrange(0, a.sessions@.len() as int) =~= a.sessions@);
    lemma_filtered_members(c.sessions@, b.filter, now);
}

impl UiState {
    /// The indices of the sessions last modified at least `days` whole days
    /// before `now`.
    pub fn sessions_older_than(&self, now: i64, days: u32) -> (r: HashSet<usize>)
        ensures
            forall|i: usize|
                #[trigger] r@.contains(i) <==> (i < self.sessions@.len() && days_between(
                    now,
                    self.sessions@[i as int].modified,
                ) >= days),
    {
        broadcast use vstd::std_specs::hash::group_hash_axioms;

        let mut out: HashSet<usize> = HashSet::new();
        let mut i: usize = 0;
        while i < self.sessions.len()
            invariant
                i <= self.sessions@.len(),
                forall|j: usize|
                    #[trigger] out@.contains(j) <==> (j < i && days_between(
                        now,
                        self.sessions@[j as int].modified,
                    ) >= days),
            decreases self.sessions@.len() - i,
        {
            if days_since(now, self.sessions[i].modified) >= days as i128 {
                out.insert(i);
            }
            i = i + 1;
        }
        out
    }
}

impl UiState {
    /// The sessions a delete, export or archive applies to: the selected ones
    /// that exist when anything is selected, else the one under the cursor.
    pub fn action_targets(&self) -> (r: HashSet<usize>)
        ensures
            forall|i: usize|
                #[trigger] r@.contains(i) <==> if self.selected@.is_empty() {
                    self.cursor < self.filtered_indices@.len() && i == self.filtered_indices@[self.cursor as int]
                } else {
                    self.selected@.contains(i) && i < self.sessions@.len()
                },
    {
        broadcast use vstd::std_specs::hash::group_hash_axioms;

        let mut out: HashSet<usize> = HashSet::new();
        if self.selected.is_empty() {
            if let Some(idx) = self.current_session_index() {
                out.insert(idx);
            }
            return out;
        }
        let mut i: usize = 0;
        while i < self.sessions.len()
            invariant
                i <= self.sessions@.len(),
                forall|j: usize|
                    #[trigger] out@.contains(j) <==> (self.selected@.contains(j) && j < i),
            decreases self.sessions@.len() - i,
        {
            if self.selected.contains(&i) {
                out.insert(i);
            }
            i = i + 1;
        }
        out
    }
}

} // verus!
