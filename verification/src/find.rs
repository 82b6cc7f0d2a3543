//! Finding a search term in a text and stepping through its occurrences.

use crate::matching::{
    all_matches, covered, find_all, is_match_list_from, lemma_scan_is_match_list, offsets,
};
use crate::text::{
    byte_offset, lemma_byte_occurrence_is_text_occurrence, lemma_chars_within_bytes,
    lemma_text_occurrence_is_byte_occurrence, text_occurs_at,
};
use vstd::arithmetic::div_mod::{lemma_mod_self_0, lemma_small_mod};
use vstd::prelude::*;
use vstd::utf8::encode_utf8;

verus! {

/// The state of a find engine as plain mathematical values.
pub ghost struct FindView {
    /// The search term.
    pub query: Seq<char>,
    /// Byte offsets of the occurrences found by the last search, ascending.
    pub matches: Seq<int>,
    /// Index into `matches` of the active occurrence; 0 when there is none.
    pub active_index: int,
}

impl FindView {
    /// The active index points into the matches, or is 0 when there are none.
    pub open spec fn wf(self) -> bool {
        &&& 0 <= self.active_index
        &&& self.matches.len() == 0 ==> self.active_index == 0
        &&& self.matches.len() > 0 ==> self.active_index < self.matches.len()
    }

    /// The state with no query and no matches.
    pub open spec fn cleared() -> FindView {
        FindView { query: Seq::empty(), matches: Seq::empty(), active_index: 0 }
    }

    /// The state after the query has been replaced; the matches stay as they
    /// were until the next search.
    pub open spec fn with_query(self, query: Seq<char>) -> FindView {
        FindView { query, ..self }
    }

    /// The state after the text `hay` has been searched for the query: the
    /// matches are the byte offsets, in the UTF-8 form of `hay`, of the
    /// non-overlapping occurrences of the query, and the first one is active.
    pub open spec fn searched(self, hay: Seq<char>) -> FindView {
        FindView {
            query: self.query,
            matches: all_matches(encode_utf8(hay), encode_utf8(self.query)),
            active_index: 0,
        }
    }

    /// The state after stepping to the following match, from the last one
    /// round to the first.
    pub open spec fn stepped_forward(self) -> FindView {
        if self.matches.len() == 0 {
            self
        } else {
            FindView { active_index: (self.active_index + 1) % (self.matches.len() as int), ..self }
        }
    }

    /// The state after stepping to the preceding match, from the first one
    /// round to the last.
    pub open spec fn stepped_back(self) -> FindView {
        if self.matches.len() == 0 {
            self
        } else if self.active_index == 0 {
            FindView { active_index: self.matches.len() - 1, ..self }
        } else {
            FindView { active_index: self.active_index - 1, ..self }
        }
    }

    /// `info` describes the active match: its offset, its place counted from
    /// 1, and the number of matches.
    pub open spec fn is_current(self, info: MatchInfo) -> bool {
        &&& self.matches.len() > 0
        &&& info.position == self.matches[self.active_index]
        &&& info.ordinal == self.active_index + 1
        &&& info.total == self.matches.len()
    }

    /// `status` is what a readout shows of this state: nothing while the
    /// query is empty, "no match" for a query without matches, and otherwise
    /// the active match.
    pub open spec fn has_status(self, status: FindStatus) -> bool {
        match status {
            FindStatus::Idle => self.query.len() == 0,
            FindStatus::NoMatch => self.query.len() > 0 && self.matches.len() == 0,
            FindStatus::Current(info) => self.query.len() > 0 && self.is_current(info),
        }
    }
}

/// The active match, for a readout such as "2 of 5".
#[derive(Clone, Copy, Debug, PartialEq, Eq)]
pub struct MatchInfo {
    /// Byte offset at which the match starts.
    pub position: usize,
    /// Place of the match among all matches, counted from 1.
    pub ordinal: usize,
    /// Number of matches.
    pub total: usize,
}

/// What a find readout shows.
#[derive(Clone, Copy, Debug, PartialEq, Eq)]
pub enum FindStatus {
    /// The query is empty: there is nothing to report.
    Idle,
    /// The query is not empty and the last search found nothing.
    NoMatch,
    /// The query is not empty and this is the active match.
    Current(MatchInfo),
}

/// Finds the occurrences of a query in a text and keeps track of the one
/// that is active. The matches are those of the last search: they are not
/// updated when the query or the text changes.
pub struct FindEngine {
    query: String,
    matches: Vec<usize>,
    active_index: usize,
}

impl View for FindEngine {
    type V = FindView;

    closed spec fn view(&self) -> FindView {
        FindView {
            query: self.query@,
            matches: offsets(self.matches@),
            active_index: self.active_index as int,
        }
    }
}

impl FindEngine {
    #[verifier::type_invariant]
    spec fn inv(&self) -> bool {
        &&& self.matches@.len() == 0 ==> self.active_index == 0
        &&& self.matches@.len() > 0 ==> self.active_index < self.matches@.len()
    }

    /// An engine with no query and no matches.
    pub fn new() -> (engine: FindEngine)
        ensures
            engine@ == FindView::cleared(),
    {
        let engine = FindEngine { query: String::new(), matches: Vec::new(), active_index: 0 };
        assert(engine@.matches =~= Seq::<int>::empty());
        engine
    }

    /// Forgets the query and the matches.
    pub fn open(&mut self)
        ensures
            final(self)@ == FindView::cleared(),
    {
        *self = FindEngine::new();
    }

    /// Forgets the query and the matches.
    pub fn close(&mut self)
        ensures
            final(self)@ == FindView::cleared(),
    {
        *self = FindEngine::new();
    }

    /// The query.
    pub fn query(&self) -> (query: &str)
        ensures
            query@ == self@.query,
    {
        self.query.as_str()
    }

    /// The byte offsets found by the last search, in ascending order.
    pub fn matches(&self) -> (found: &Vec<usize>)
        ensures
            offsets(found@) == self@.matches,
    {
        &self.matches
    }

    /// The index of the active match among the matches; 0 when there are
    /// none.
    pub fn active_index(&self) -> (index: usize)
        ensures
            index == self@.active_index,
            self@.wf(),
    {
        proof {
            use_type_invariant(self);
        }
        self.active_index
    }

    /// The active match, or `None` when there are no matches.
    pub fn current_match(&self) -> (current: Option<MatchInfo>)
        ensures
            self@.wf(),
            match current {
                Some(info) => self@.is_current(info),
                None => self@.matches.len() == 0,
            },
    {
        proof {
            use_type_invariant(self);
        }
        if self.matches.len() == 0 {
            None
        } else {
            Some(
                MatchInfo {
                    position: self.matches[self.active_index],
                    ordinal: self.active_index + 1,
                    total: self.matches.len(),
                },
            )
        }
    }

    /// What a readout shows: nothing for an empty query, "no match" for a
    /// query that the last search did not find, else the active match.
    pub fn status(&self) -> (status: FindStatus)
        ensures
            self@.has_status(status),
    {
        if self.query.as_str().is_empty() {
            FindStatus::Idle
        } else {
            match self.current_match() {
                Some(info) => FindStatus::Current(info),
                None => FindStatus::NoMatch,
            }
        }
    }

    /// Replaces the query. The matches are left as they are: call `search`
    /// to bring them up to date.
    pub fn set_query(&mut self, query: String)
        ensures
            final(self)@ == old(self)@.with_query(query@),
            final(self)@.wf(),
    {
        proof {
            use_type_invariant(&*self);
        }
        self.query = query;
    }

    /// Searches `haystack` for the query and makes the first match active.
    pub fn search(&mut self, haystack: &str)
        ensures
            final(self)@ == old(self)@.searched(haystack@),
            final(self)@.wf(),
    {
        let found = find_all(haystack.as_bytes(), self.query.as_str().as_bytes());
        self.active_index = 0;
        self.matches = found;
    }

    /// Makes the following match active; behind the last one comes the
    /// first. Does nothing when there are no matches.
    pub fn next(&mut self)
        ensures
            final(self)@ == old(self)@.stepped_forward(),
            final(self)@.wf(),
    {
        proof {
            use_type_invariant(&*self);
        }
        if self.matches.len() == 0 {
            return ;
        }
        self.active_index = (self.active_index + 1) % self.matches.len();
    }

    /// Makes the preceding match active; before the first one comes the
    /// last. Does nothing when there are no matches.
    pub fn previous(&mut self)
        ensures
            final(self)@ == old(self)@.stepped_back(),
            final(self)@.wf(),
    {
        proof {
            use_type_invariant(&*self);
        }
        if self.matches.len() == 0 {
            return ;
        }
        if self.active_index == 0 {
            self.active_index = self.matches.len() - 1;
        } else {
            self.active_index -= 1;
        }
    }
}

/// Searching for the empty query finds nothing, whatever the text.
pub proof fn lemma_empty_query_finds_nothing(state: FindView, hay: Seq<char>)
    requires
        state.query.len() == 0,
    ensures
        state.searched(hay).matches == Seq::<int>::empty(),
        state.searched(hay).wf(),
{
}

/// A search leaves the non-overlapping occurrences of the query in the
/// text, leftmost first, with the first one active; the same query and text
/// give the same matches whatever the state was before.
pub proof fn lemma_search_result(state: FindView, other: FindView, hay: Seq<char>)
    requires
        state.query == other.query,
    ensures
        is_match_list_from(
            encode_utf8(hay),
            encode_utf8(state.query),
            0,
            state.searched(hay).matches,
        ),
        state.searched(hay).active_index == 0,
        state.searched(hay).wf(),
        state.searched(hay) == other.searched(hay),
{
    lemma_scan_is_match_list(encode_utf8(hay), encode_utf8(state.query), 0);
}

/// Every match of a search is the byte offset of a character of the text at
/// which the query stands, character for character.
pub proof fn lemma_match_is_text_occurrence(state: FindView, hay: Seq<char>, i: int) -> (at: int)
    requires
        0 <= i < state.searched(hay).matches.len(),
    ensures
        text_occurs_at(hay, state.query, at),
        byte_offset(hay, at) == state.searched(hay).matches[i],
{
    lemma_scan_is_match_list(encode_utf8(hay), encode_utf8(state.query), 0);
    lemma_byte_occurrence_is_text_occurrence(hay, state.query, state.searched(hay).matches[i])
}

/// Wherever the query, if not empty, stands in the text, a match of the
/// search starts there or overlaps it.
pub proof fn lemma_text_occurrence_is_covered(state: FindView, hay: Seq<char>, at: int)
    requires
        state.query.len() > 0,
        text_occurs_at(hay, state.query, at),
    ensures
        covered(
            state.searched(hay).matches,
            encode_utf8(state.query).len(),
            byte_offset(hay, at),
        ),
{
    lemma_chars_within_bytes(state.query);
    lemma_text_occurrence_is_byte_occurrence(hay, state.query, at);
    lemma_scan_is_match_list(encode_utf8(hay), encode_utf8(state.query), 0);
}

/// What a step forward does to the active index, without the remainder.
proof fn lemma_step_forward_index(state: FindView)
    requires
        state.wf(),
        state.matches.len() > 0,
    ensures
        state.stepped_forward().active_index == if state.active_index + 1
            == state.matches.len() {
            0
        } else {
            state.active_index + 1
        },
{
    let count = state.matches.len() as int;
    if state.active_index + 1 == count {
        lemma_mod_self_0(count);
    } else {
        lemma_small_mod((state.active_index + 1) as nat, count as nat);
    }
}

/// Stepping keeps the active index within the matches.
pub proof fn lemma_steps_keep_wf(state: FindView)
    requires
        state.wf(),
    ensures
        state.stepped_forward().wf(),
        state.stepped_back().wf(),
{
    if state.matches.len() > 0 {
        lemma_step_forward_index(state);
    }
}

/// Stepping back from the first match leads to the last one, and stepping
/// forward from the last match leads to the first one.
pub proof fn lemma_steps_wrap(state: FindView)
    requires
        state.wf(),
        state.matches.len() > 0,
    ensures
        state.active_index == 0 ==> state.stepped_back().active_index == state.matches.len() - 1,
        state.active_index == state.matches.len() - 1 ==> state.stepped_forward().active_index
            == 0,
        state.active_index < state.matches.len() - 1 ==> state.stepped_forward().active_index
            == state.active_index + 1,
        state.active_index > 0 ==> state.stepped_back().active_index == state.active_index - 1,
{
    lemma_step_forward_index(state);
}

/// A step forward and a step back undo each other.
pub proof fn lemma_steps_cancel(state: FindView)
    requires
        state.wf(),
    ensures
        state.stepped_forward().stepped_back() == state,
        state.stepped_back().stepped_forward() == state,
{
    if state.matches.len() > 0 {
        lemma_step_forward_index(state);
        lemma_step_forward_index(state.stepped_back());
    }
}

} // verus!
