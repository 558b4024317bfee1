//! Owned copies of what the engine reports for a rule that matched.

pub mod metadata;
pub mod tag;
pub mod yr_string;

use vstd::prelude::*;

use crate::errors::texts;
use crate::libyara::{YR_RULE, YR_STRING};
use crate::rule::metadata::{
    meta_list_view, meta_stop, metadata_views, metas_hold_entries, metas_ok, Metadata,
    MetadataIterator, MetadataView,
};
use crate::rule::tag::{tag_list, tag_texts, tags_hold_text, tags_ok, TagIterator};
use crate::rule::yr_string::{
    faithful, lemma_match_round_trip, match_view, matches_of, string_stop, string_view, string_views,
    strings_hold, strings_ok, YrString, YrStringIterator, YrStringView,
};
use crate::sentinel::{lemma_live_shape, lemma_live_step, live, live_len};
use crate::text::{holds_text, is_text, text_of, to_text};

verus! {

/// A rule that matched, with everything the engine reported of it.
#[derive(Clone, Debug)]
pub struct Rule {
    pub identifier: String,
    pub namespace: String,
    pub metadata: Vec<Metadata>,
    pub tags: Vec<String>,
    pub strings: Vec<YrString>,
}

/// A `Rule` with its texts as sequences of characters.
pub struct RuleView {
    pub identifier: Seq<char>,
    pub namespace: Seq<char>,
    pub metadata: Seq<MetadataView>,
    pub tags: Seq<Seq<char>>,
    pub strings: Seq<YrStringView>,
}

impl View for Rule {
    type V = RuleView;

    open spec fn view(&self) -> RuleView {
        RuleView {
            identifier: self.identifier@,
            namespace: self.namespace@,
            metadata: metadata_views(self.metadata@),
            tags: texts(self.tags@),
            strings: string_views(self.strings@),
        }
    }
}

/// The views of a sequence of rules.
pub open spec fn rule_views(rules: Seq<Rule>) -> Seq<RuleView> {
    rules.map_values(|r: Rule| r@)
}

/// What captured strings are projected to for thread `tidx`, one by one.
pub open spec fn strings_view(strings: Seq<YR_STRING>, tidx: i32) -> Seq<YrStringView> {
    strings.map_values(|s: YR_STRING| string_view(s, tidx))
}

/// A captured rule can be projected for thread `tidx`: its names, its tags
/// and what its live metadata and strings hold are text, each live metadata
/// record has a type of value, and each live string has a list of matches for
/// that thread.
pub open spec fn rule_ok(rule: YR_RULE, tidx: i32) -> bool {
    &&& is_text(rule.identifier@)
    &&& is_text(rule.ns.name@)
    &&& tags_ok(rule.tags@)
    &&& metas_ok(live(rule.metas@, meta_stop()))
    &&& strings_ok(live(rule.strings@, string_stop()), tidx)
}

/// What a captured rule is projected to for thread `tidx`: everything up to
/// the end markers, in the engine's order, and nothing beyond them.
pub open spec fn rule_view(rule: YR_RULE, tidx: i32) -> RuleView {
    RuleView {
        identifier: text_of(rule.identifier@),
        namespace: text_of(rule.ns.name@),
        metadata: meta_list_view(rule.metas@),
        tags: tag_texts(tag_list(rule.tags@)),
        strings: strings_view(live(rule.strings@, string_stop()), tidx),
    }
}

/// Every match of every live string of `rule` that thread `tidx` found agrees
/// with the scanned data.
pub open spec fn rule_faithful(rule: YR_RULE, tidx: i32, input: Seq<u8>) -> bool {
    let strings = live(rule.strings@, string_stop());
    forall|i: int, j: int|
        0 <= i < strings.len() && 0 <= j < matches_of(strings[i], tidx).len() ==> faithful(
            #[trigger] matches_of(strings[i], tidx)[j],
            input,
        )
}

/// The round trip of matches: where the engine's matches agree with the data
/// that were scanned, every match of the projected rule, sliced from those
/// data at its offset over its length, is exactly the match's data.
pub proof fn lemma_rule_round_trip(rule: YR_RULE, tidx: i32, input: Seq<u8>, i: int, j: int)
    requires
        rule_faithful(rule, tidx, input),
        0 <= i < rule_view(rule, tidx).strings.len(),
        0 <= j < rule_view(rule, tidx).strings[i].matches.len(),
    ensures
        rule_view(rule, tidx).strings[i].matches[j].is_slice_of(input),
{
    let strings = live(rule.strings@, string_stop());
    let nodes = matches_of(strings[i], tidx);
    assert(rule_view(rule, tidx).strings[i] == string_view(strings[i], tidx));
    assert(rule_view(rule, tidx).strings[i].matches[j] == match_view(nodes[j]));
    lemma_match_round_trip(nodes[j], input);
}

/// Whether a captured rule can be projected for thread `tidx`.
pub fn can_project(rule: &YR_RULE, tidx: i32) -> (ok: bool)
    ensures
        ok == rule_ok(*rule, tidx),
{
    holds_text(rule.get_identifier()) && holds_text(rule.get_ns().get_name()) && tags_hold_text(
        rule.get_tags(),
    ) && metas_hold_entries(rule.get_metas()) && strings_hold(rule.get_strings(), tidx)
}

impl Rule {
    /// An owned copy of a captured rule, with the matches that the scanning
    /// thread of index `tidx` found.
    pub fn from(rule: &YR_RULE, tidx: i32) -> (r: Rule)
        requires
            rule_ok(*rule, tidx),
        ensures
            r@ == rule_view(*rule, tidx),
    {
        let id = to_text(rule.get_identifier());
        let ns = to_text(rule.get_ns().get_name());
        let tags = TagIterator::from(rule).collect();
        let metadata = MetadataIterator::from(rule).collect();
        let mut it = YrStringIterator::from(rule);
        let mut strings: Vec<YrString> = Vec::new();
        let ghost all = live(rule.strings@, string_stop());
        proof {
            lemma_live_shape(rule.strings@, string_stop());
        }
        loop
            invariant
                strings@.len() <= all.len(),
                live(it@, string_stop()) == all.skip(strings@.len() as int),
                strings_ok(all, tidx),
                string_views(strings@) == strings_view(all.take(strings@.len() as int), tidx),
            ensures
                string_views(strings@) == strings_view(all, tidx),
            decreases all.len() - strings@.len(),
        {
            let ghost before = strings@;
            let ghost here = it@;
            proof {
                lemma_live_shape(here, string_stop());
                if live_len(here, string_stop()) > 0 {
                    assert(live(here, string_stop())[0] == here[0]);
                    assert(all.skip(before.len() as int)[0] == all[before.len() as int]);
                }
            }
            match it.next() {
                Some(s) => {
                    strings.push(YrString::from(s, tidx));
                    proof {
                        let done = before.len() as int;
                        lemma_live_step(here, string_stop());
                        assert(live(it@, string_stop()) =~= live(here, string_stop()).skip(1));
                        assert(all.skip(done).skip(1) =~= all.skip(done + 1));
                        assert forall|i: int| 0 <= i < done + 1 implies string_views(strings@)[i]
                            == strings_view(all.take(done + 1), tidx)[i] by {
                            if i < done {
                                assert(string_views(before)[i] == strings_view(
                                    all.take(done),
                                    tidx,
                                )[i]);
                            }
                        }
                        assert(string_views(strings@) =~= strings_view(all.take(done + 1), tidx));
                    }
                },
                None => {
                    assert(all.take(strings@.len() as int) =~= all);
                    break ;
                },
            }
        }
        Rule { identifier: id, namespace: ns, tags, metadata, strings }
    }
}

} // verus!
