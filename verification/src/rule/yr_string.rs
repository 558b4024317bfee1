//! The named strings of a rule and where they were found.

use vstd::prelude::*;
use vstd::slice::*;

use crate::libyara::{YR_MATCH, YR_MATCHES, YR_RULE, YR_STRING, STRING_GFLAGS_NULL};
use crate::sentinel::{lemma_live_shape, live, live_len, none_stops};
use crate::text::{holds_text, is_text, text_of, to_text};

verus! {

/// One occurrence of a string in the scanned data.
#[derive(Clone, Debug)]
pub struct Match {
    /// Offset of the match within the scanning area.
    pub offset: usize,
    /// Length of the match. Can be useful if the matcher string has not a
    /// fixed length.
    pub length: usize,
    /// Matched data.
    pub data: Vec<u8>,
}

/// A `Match` with its data as a sequence.
pub struct MatchView {
    pub offset: usize,
    pub length: usize,
    pub data: Seq<u8>,
}

impl View for Match {
    type V = MatchView;

    open spec fn view(&self) -> MatchView {
        MatchView { offset: self.offset, length: self.length, data: self.data@ }
    }
}

impl MatchView {
    /// The match lies in `input` at its offset, over its length, and its data
    /// are the bytes found there.
    pub open spec fn is_slice_of(self, input: Seq<u8>) -> bool {
        &&& self.offset + self.length <= input.len()
        &&& input.subrange(self.offset as int, self.offset + self.length) == self.data
    }
}

/// A string of a rule with its matches.
#[derive(Clone, Debug)]
pub struct YrString {
    /// Name of the string, with the '$'.
    pub identifier: String,
    /// Matches of the string for the scan.
    pub matches: Vec<Match>,
}

/// A `YrString` with its name as a sequence of characters.
pub struct YrStringView {
    pub identifier: Seq<char>,
    pub matches: Seq<MatchView>,
}

/// The views of a sequence of matches.
pub open spec fn match_views(matches: Seq<Match>) -> Seq<MatchView> {
    matches.map_values(|m: Match| m@)
}

impl View for YrString {
    type V = YrStringView;

    open spec fn view(&self) -> YrStringView {
        YrStringView { identifier: self.identifier@, matches: match_views(self.matches@) }
    }
}

/// The views of a sequence of strings.
pub open spec fn string_views(strings: Seq<YrString>) -> Seq<YrStringView> {
    strings.map_values(|s: YrString| s@)
}

/// What a captured match is projected to.
pub open spec fn match_view(m: YR_MATCH) -> MatchView {
    MatchView { offset: m.offset as usize, length: m.match_length as usize, data: m.data@ }
}

/// What a captured list of matches is projected to, node by node.
pub open spec fn match_list_view(nodes: Seq<YR_MATCH>) -> Seq<MatchView> {
    nodes.map_values(|m: YR_MATCH| match_view(m))
}

/// Recognises the record that ends an array of strings.
pub open spec fn string_stop() -> spec_fn(YR_STRING) -> bool {
    |s: YR_STRING| s.g_flags & STRING_GFLAGS_NULL != 0
}

/// A captured string can be projected for thread `tidx`: its name is text and
/// it has a list of matches for that thread.
pub open spec fn string_ok(s: YR_STRING, tidx: i32) -> bool {
    &&& is_text(s.identifier@)
    &&& 0 <= tidx < s.matches@.len()
}

/// Every string of `strings` can be projected for thread `tidx`.
pub open spec fn strings_ok(strings: Seq<YR_STRING>, tidx: i32) -> bool {
    forall|i: int| 0 <= i < strings.len() ==> string_ok(#[trigger] strings[i], tidx)
}

/// The matches of a captured string that thread `tidx` found, in the order
/// of their list.
pub open spec fn matches_of(s: YR_STRING, tidx: i32) -> Seq<YR_MATCH> {
    s.matches@[tidx as int].nodes@
}

/// What a captured string is projected to for thread `tidx`.
pub open spec fn string_view(s: YR_STRING, tidx: i32) -> YrStringView {
    YrStringView {
        identifier: text_of(s.identifier@),
        matches: match_list_view(matches_of(s, tidx)),
    }
}

/// A captured match agrees with the data that was scanned: it lies within
/// them and the engine kept all of its bytes.
pub open spec fn faithful(m: YR_MATCH, input: Seq<u8>) -> bool {
    &&& 0 <= m.offset
    &&& 0 <= m.match_length
    &&& m.offset + m.match_length <= input.len() <= usize::MAX
    &&& m.data@ == input.subrange(m.offset as int, m.offset + m.match_length)
}

/// Projection keeps the round trip: where a captured match agrees with the
/// scanned data, slicing those data at the projected offset over the
/// projected length gives the projected data.
pub proof fn lemma_match_round_trip(m: YR_MATCH, input: Seq<u8>)
    requires
        faithful(m, input),
    ensures
        match_view(m).is_slice_of(input),
{
}

/// Whether a captured record ends its array of strings.
pub fn ends_strings(string: &YR_STRING) -> (end: bool)
    ensures
        end == string_stop()(*string),
{
    string.g_flags & STRING_GFLAGS_NULL != 0
}

/// Whether a captured string can be projected for thread `tidx`.
pub fn string_holds(string: &YR_STRING, tidx: i32) -> (ok: bool)
    ensures
        ok == string_ok(*string, tidx),
{
    holds_text(string.get_identifier()) && 0 <= tidx && (tidx as usize) < string.matches.len()
}

/// Whether every live record of a captured array of strings can be projected
/// for thread `tidx`.
pub fn strings_hold(strings: &[YR_STRING], tidx: i32) -> (ok: bool)
    ensures
        ok == strings_ok(live(strings@, string_stop()), tidx),
{
    let mut i: usize = 0;
    proof {
        lemma_live_shape(strings@, string_stop());
    }
    while i < strings.len() && !ends_strings(&strings[i])
        invariant
            i <= live_len(strings@, string_stop()) <= strings@.len(),
            live(strings@, string_stop()).len() == live_len(strings@, string_stop()),
            none_stops(live(strings@, string_stop()), string_stop()),
            live_len(strings@, string_stop()) < strings@.len() ==> string_stop()(
                strings@[live_len(strings@, string_stop()) as int],
            ),
            forall|j: int|
                0 <= j < i ==> string_ok(#[trigger] live(strings@, string_stop())[j], tidx),
        decreases strings@.len() - i,
    {
        assert(i < live_len(strings@, string_stop()));
        assert(live(strings@, string_stop())[i as int] == strings@[i as int]);
        if !string_holds(&strings[i], tidx) {
            return false;
        }
        i = i + 1;
    }
    proof {
        if i < live_len(strings@, string_stop()) {
            assert(live(strings@, string_stop())[i as int] == strings@[i as int]);
            assert(!string_stop()(live(strings@, string_stop())[i as int]));
        }
    }
    true
}

/// Walks an array of captured strings up to its end marker.
pub struct YrStringIterator<'a> {
    head: &'a [YR_STRING],
}

impl<'a> View for YrStringIterator<'a> {
    type V = Seq<YR_STRING>;

    /// The array from the iterator's position onwards.
    closed spec fn view(&self) -> Seq<YR_STRING> {
        self.head@
    }
}

impl<'a> YrStringIterator<'a> {
    /// An iterator at the first string of `rule`.
    pub fn from(rule: &'a YR_RULE) -> (it: YrStringIterator<'a>)
        ensures
            it@ == rule.strings@,
    {
        YrStringIterator { head: rule.get_strings() }
    }

    /// The string at the iterator's position, unless the array ends there.
    pub fn next(&mut self) -> (item: Option<&'a YR_STRING>)
        ensures
            live_len(old(self)@, string_stop()) == 0 ==> item is None && final(self)@ == old(self)@,
            live_len(old(self)@, string_stop()) > 0 ==> item == Some(&old(self)@[0]) && final(self)@ == old(self)@.skip(1),
    {
        if self.head.len() == 0 {
            return None;
        }
        let string = &self.head[0];
        if ends_strings(string) {
            None
        } else {
            self.head = slice_subrange(self.head, 1, self.head.len());
            Some(string)
        }
    }
}

/// Walks a captured list of matches from node to node.
pub struct MatchIterator<'a> {
    head: &'a [YR_MATCH],
}

impl<'a> View for MatchIterator<'a> {
    type V = Seq<YR_MATCH>;

    /// The list from the iterator's position onwards.
    closed spec fn view(&self) -> Seq<YR_MATCH> {
        self.head@
    }
}

impl<'a> MatchIterator<'a> {
    /// An iterator at the head of `matches`.
    pub fn from(matches: &'a YR_MATCHES) -> (it: MatchIterator<'a>)
        ensures
            it@ == matches.nodes@,
    {
        MatchIterator { head: matches.get_head() }
    }

    /// The node at the iterator's position, unless the list ends there.
    pub fn next(&mut self) -> (item: Option<&'a YR_MATCH>)
        ensures
            old(self)@.len() == 0 ==> item is None && final(self)@ == old(self)@,
            old(self)@.len() > 0 ==> item == Some(&old(self)@[0]) && final(self)@ == old(self)@.skip(1),
    {
        if self.head.len() > 0 {
            let m = &self.head[0];
            self.head = slice_subrange(self.head, 1, self.head.len());
            Some(m)
        } else {
            None
        }
    }
}

impl Match {
    /// An owned copy of a captured match.
    pub fn from(m: &YR_MATCH) -> (r: Match)
        ensures
            r@ == match_view(*m),
    {
        Match {
            offset: m.offset as usize,
            length: m.match_length as usize,
            data: slice_to_vec(m.data.as_slice()),
        }
    }
}

impl YrString {
    /// An owned copy of a captured string, with the matches that the scanning
    /// thread of index `tidx` found.
    pub fn from(string: &YR_STRING, tidx: i32) -> (r: YrString)
        requires
            string_ok(*string, tidx),
        ensures
            r@ == string_view(*string, tidx),
    {
        let identifier = to_text(string.get_identifier());
        let list = &string.matches[tidx as usize];
        let mut it = MatchIterator::from(list);
        let mut matches: Vec<Match> = Vec::new();
        let ghost all = list.nodes@;
        loop
            invariant
                matches@.len() + it@.len() == all.len(),
                it@ == all.skip(matches@.len() as int),
                match_views(matches@) == match_list_view(all.take(matches@.len() as int)),
            ensures
                match_views(matches@) == match_list_view(all),
            decreases it@.len(),
        {
            let ghost before = matches@;
            match it.next() {
                Some(m) => {
                    matches.push(Match::from(m));
                    proof {
                        let done = before.len() as int;
                        assert(it@ =~= all.skip(done + 1));
                        assert(*m == all[done]);
                        assert forall|i: int| 0 <= i < done + 1 implies match_views(matches@)[i]
                            == match_list_view(all.take(done + 1))[i] by {
                            if i < done {
                                assert(match_views(before)[i] == match_list_view(all.take(done))[i]);
                            }
                        }
                        assert(match_views(matches@) =~= match_list_view(all.take(done + 1)));
                    }
                },
                None => {
                    assert(all.take(matches@.len() as int) =~= all);
                    break ;
                },
            }
        }
        YrString { identifier, matches }
    }
}

} // verus!
