//! The search within the preview text buffer: matching lines, and moving
//! from match to match with wraparound.

use vstd::prelude::*;

use crate::state::{list_unchanged, UiState};
use crate::text::{contains_str, lower_of, occurs_in, to_lower};

verus! {

/// The line numbers of the lines holding the lowercased query `q`, ascending.
pub open spec fn line_hits(lines: Seq<String>, q: Seq<char>) -> Seq<usize>
    decreases lines.len(),
{
    if lines.len() == 0 {
        Seq::empty()
    } else {
        let rest = line_hits(lines.drop_last(), q);
        if occurs_in(q, lower_of(lines.last()@)) {
            rest.push((lines.len() - 1) as usize)
        } else {
            rest
        }
    }
}

impl UiState {
    /// Recomputes the lines matching the preview search, case-insensitively,
    /// and scrolls to the first one; with no match the scroll stays put.
    pub fn update_preview_search(&mut self)
        ensures
            final(self).preview_match_index == 0,
            old(self).preview_search@.len() == 0 ==> final(self).preview_matches@.len() == 0
                && final(self).preview_scroll == old(self).preview_scroll,
            old(self).preview_search@.len() > 0 ==> final(self).preview_matches@ == line_hits(
                old(self).preview_lines@,
                lower_of(old(self).preview_search@),
            ),
            final(self).preview_matches@.len() > 0 ==> final(self).preview_scroll
                == final(self).preview_matches@[0],
            final(self).preview_matches@.len() == 0 ==> final(self).preview_scroll == old(self).preview_scroll,
            list_unchanged(*old(self), *final(self)),
    {
        self.preview_matches.clear();
        self.preview_match_index = 0;
        if self.preview_search.as_str().unicode_len() == 0 {
            return;
        }
        let query = to_lower(self.preview_search.as_str());
        let mut i: usize = 0;
        while i < self.preview_lines.len()
            invariant
                i <= self.preview_lines@.len(),
                query@ == lower_of(self.preview_search@),
                self.preview_match_index == 0,
                self.preview_scroll == old(self).preview_scroll,
                self.preview_matches@ == line_hits(self.preview_lines@.take(i as int), query@),
                list_unchanged(*old(self), *self),
            decreases self.preview_lines@.len() - i,
        {
            assert(self.preview_lines@.take(i as int + 1).drop_last() =~= self.preview_lines@.take(
                i as int,
            ));
            let line = to_lower(self.preview_lines[i].as_str());
            if contains_str(line.as_str(), query.as_str()) {
                self.preview_matches.push(i);
            }
            i = i + 1;
        }
        assert(self.preview_lines@.take(self.preview_lines@.len() as int) =~= self.preview_lines@);
        if self.preview_matches.len() > 0 {
            self.preview_scroll = self.preview_matches[0];
        }
    }

    /// Moves to the next match, wrapping around, and scrolls to it.
    pub fn next_preview_match(&mut self)
        ensures
            old(self).preview_matches@.len() == 0 ==> final(self).preview_match_index == old(self).preview_match_index && final(self).preview_scroll == old(self).preview_scroll,
            old(self).preview_matches@.len() > 0 ==> {
                &&& final(self).preview_match_index as int == (old(self).preview_match_index as int
                    + 1) % (old(self).preview_matches@.len() as int)
                &&& final(self).preview_scroll == old(self).preview_matches@[final(self).preview_match_index as int]
            },
            final(self).preview_matches == old(self).preview_matches,
            list_unchanged(*old(self), *final(self)),
    {
        let len = self.preview_matches.len();
        if len == 0 {
            return;
        }
        let next = (self.preview_match_index % len + 1) % len;
        proof {
            let i = self.preview_match_index as int;
            let n = len as int;
            assert((i % n + 1) % n == (i + 1) % n) by (nonlinear_arith)
                requires
                    n > 0,
                    i >= 0,
            {
                vstd::arithmetic::div_mod::lemma_add_mod_noop(i, 1, n);
                vstd::arithmetic::div_mod::lemma_mod_twice(1, n);
            }
        }
        self.preview_match_index = next;
        self.preview_scroll = self.preview_matches[next];
    }

    /// Moves to the previous match, wrapping around, and scrolls to it.
    pub fn prev_preview_match(&mut self)
        requires
            old(self).preview_matches@.len() > 0 ==> old(self).preview_match_index < old(self).preview_matches@.len(),
        ensures
            old(self).preview_matches@.len() == 0 ==> final(self).preview_match_index == old(self).preview_match_index && final(self).preview_scroll == old(self).preview_scroll,
            old(self).preview_matches@.len() > 0 ==> {
                &&& final(self).preview_match_index == if old(self).preview_match_index == 0 {
                    (old(self).preview_matches@.len() - 1) as usize
                } else {
                    (old(self).preview_match_index - 1) as usize
                }
                &&& final(self).preview_scroll == old(self).preview_matches@[final(self).preview_match_index as int]
            },
            final(self).preview_matches == old(self).preview_matches,
            list_unchanged(*old(self), *final(self)),
    {
        let len = self.preview_matches.len();
        if len == 0 {
            return;
        }
        if self.preview_match_index == 0 {
            self.preview_match_index = len - 1;
        } else {
            self.preview_match_index = self.preview_match_index - 1;
        }
        self.preview_scroll = self.preview_matches[self.preview_match_index];
    }

    /// Forgets the preview search.
    pub fn clear_preview_search(&mut self)
        ensures
            final(self).preview_search@.len() == 0,
            !final(self).preview_search_active,
            final(self).preview_matches@.len() == 0,
            final(self).preview_match_index == 0,
            final(self).preview_lines == old(self).preview_lines,
            final(self).preview_scroll == old(self).preview_scroll,
            final(self).sessions == old(self).sessions,
            final(self).filtered_indices == old(self).filtered_indices,
            final(self).selected == old(self).selected,
            final(self).cursor == old(self).cursor,
    {
        self.preview_search = String::new();
        self.preview_search_active = false;
        self.preview_matches.clear();
        self.preview_match_index = 0;
    }
}

} // verus!
