//! The bridge between a scan of the engine and the caller's list of results.
//!
//! During a scan the engine sends messages to a callback. A message that
//! reports a matching rule carries the rule's record; any other message
//! carries something else, which is never read as a rule.

use vstd::prelude::*;

use crate::libyara::{YR_RULE, CALLBACK_CONTINUE, CALLBACK_MSG_RULE_MATCHING};
use crate::rule::{rule_ok, rule_view, rule_views, Rule, RuleView};
use crate::text::text_of;

verus! {

/// One message of the engine to the scan callback: its kind and, where the
/// kind reports a match, the captured rule.
pub struct Message {
    pub kind: i32,
    pub rule: Option<YR_RULE>,
}

/// What one message makes of the results so far: a match is appended, any
/// other message changes nothing.
pub open spec fn after_message(results: Seq<RuleView>, message: Message, tidx: i32) -> Seq<
    RuleView,
> {
    if message.kind == CALLBACK_MSG_RULE_MATCHING {
        results.push(rule_view(message.rule.unwrap(), tidx))
    } else {
        results
    }
}

/// The results of a scan during which the engine sent `messages`, in that
/// order, to a callback that started from an empty list.
pub open spec fn collected(messages: Seq<Message>, tidx: i32) -> Seq<RuleView>
    decreases messages.len(),
{
    if messages.len() == 0 {
        Seq::empty()
    } else {
        after_message(collected(messages.drop_last(), tidx), messages.last(), tidx)
    }
}

/// Every rule that the engine reports as matching is among the results of the
/// scan.
pub proof fn lemma_every_match_is_collected(messages: Seq<Message>, tidx: i32, i: int)
    requires
        0 <= i < messages.len(),
        messages[i].kind == CALLBACK_MSG_RULE_MATCHING,
    ensures
        collected(messages, tidx).contains(rule_view(messages[i].rule.unwrap(), tidx)),
    decreases messages.len(),
{
    let init = collected(messages.drop_last(), tidx);
    let all = collected(messages, tidx);
    if i == messages.len() - 1 {
        assert(all[all.len() - 1] == rule_view(messages[i].rule.unwrap(), tidx));
    } else {
        lemma_every_match_is_collected(messages.drop_last(), tidx, i);
        let j = choose|j: int|
            0 <= j < init.len() && init[j] == rule_view(messages[i].rule.unwrap(), tidx);
        assert(all[j] == init[j]);
    }
}

/// The results of a scan hold nothing but the rules that the engine reported
/// as matching: a rule of which it sent no such message does not occur.
pub proof fn lemma_only_matches_are_collected(messages: Seq<Message>, tidx: i32, j: int)
    requires
        0 <= j < collected(messages, tidx).len(),
    ensures
        exists|i: int|
            0 <= i < messages.len() && (#[trigger] messages[i]).kind == CALLBACK_MSG_RULE_MATCHING
                && collected(messages, tidx)[j] == rule_view(messages[i].rule.unwrap(), tidx),
    decreases messages.len(),
{
    let init = collected(messages.drop_last(), tidx);
    let last = messages.len() - 1;
    if messages[last].kind == CALLBACK_MSG_RULE_MATCHING && j == init.len() {
        assert(messages[last].kind == CALLBACK_MSG_RULE_MATCHING);
    } else {
        lemma_only_matches_are_collected(messages.drop_last(), tidx, j);
        let i = choose|i: int|
            0 <= i < messages.drop_last().len() && (#[trigger] messages.drop_last()[i]).kind
                == CALLBACK_MSG_RULE_MATCHING && init[j] == rule_view(
                messages.drop_last()[i].rule.unwrap(),
                tidx,
            );
        assert(messages[i] == messages.drop_last()[i]);
    }
}

/// The name under which a captured rule is reported.
pub open spec fn reported_name(rule: YR_RULE) -> Seq<char> {
    text_of(rule.identifier@)
}

/// A rule that the engine reports as matching is in the results of the scan
/// under its name, so these are not empty.
pub proof fn lemma_reported_rule_is_named(messages: Seq<Message>, tidx: i32, i: int)
    requires
        0 <= i < messages.len(),
        messages[i].kind == CALLBACK_MSG_RULE_MATCHING,
    ensures
        collected(messages, tidx).len() >= 1,
        exists|j: int|
            0 <= j < collected(messages, tidx).len() && (#[trigger] collected(
                messages,
                tidx,
            )[j]).identifier == reported_name(messages[i].rule.unwrap()),
{
    lemma_every_match_is_collected(messages, tidx, i);
    let view = rule_view(messages[i].rule.unwrap(), tidx);
    let j = choose|j: int|
        0 <= j < collected(messages, tidx).len() && collected(messages, tidx)[j] == view;
    assert(collected(messages, tidx)[j].identifier == reported_name(messages[i].rule.unwrap()));
}

/// A name under which the engine reports no match occurs nowhere in the
/// results of the scan.
pub proof fn lemma_silent_rule_is_absent(messages: Seq<Message>, tidx: i32, name: Seq<char>)
    requires
        forall|i: int|
            0 <= i < messages.len() && (#[trigger] messages[i]).kind == CALLBACK_MSG_RULE_MATCHING
                ==> reported_name(messages[i].rule.unwrap()) != name,
    ensures
        forall|j: int|
            0 <= j < collected(messages, tidx).len() ==> (#[trigger] collected(
                messages,
                tidx,
            )[j]).identifier != name,
{
    assert forall|j: int| 0 <= j < collected(messages, tidx).len() implies (#[trigger] collected(
        messages,
        tidx,
    )[j]).identifier != name by {
        lemma_only_matches_are_collected(messages, tidx, j);
        let i = choose|i: int|
            0 <= i < messages.len() && (#[trigger] messages[i]).kind == CALLBACK_MSG_RULE_MATCHING
                && collected(messages, tidx)[j] == rule_view(messages[i].rule.unwrap(), tidx);
        assert(reported_name(messages[i].rule.unwrap()) != name);
    }
}

/// The scan callback. For a message that reports a match, the captured rule
/// is projected for the scanning thread of index `tidx` and appended to
/// `user_data`; any other message is ignored. The engine is always told to go
/// on.
pub fn scan_callback(
    msg: i32,
    message_data: Option<&YR_RULE>,
    tidx: i32,
    user_data: &mut Vec<Rule>,
) -> (status: i32)
    requires
        msg == CALLBACK_MSG_RULE_MATCHING ==> (message_data matches Some(rule) && rule_ok(
            *rule,
            tidx,
        )),
    ensures
        status == CALLBACK_CONTINUE,
        msg != CALLBACK_MSG_RULE_MATCHING ==> final(user_data)@ == old(user_data)@,
        msg == CALLBACK_MSG_RULE_MATCHING ==> {
            &&& final(user_data)@.len() == old(user_data)@.len() + 1
            &&& final(user_data)@.drop_last() == old(user_data)@
            &&& final(user_data)@.last()@ == rule_view(*message_data.unwrap(), tidx)
        },
        message_data matches Some(rule) ==> rule_views(final(user_data)@) == after_message(
            rule_views(old(user_data)@),
            Message { kind: msg, rule: Some(*rule) },
            tidx,
        ),
{
    if msg == CALLBACK_MSG_RULE_MATCHING {
        match message_data {
            Some(rule) => {
                user_data.push(Rule::from(rule, tidx));
                assert(user_data@.drop_last() =~= old(user_data)@);
                assert(rule_views(user_data@) =~= rule_views(old(user_data)@).push(
                    rule_view(*rule, tidx),
                ));
            },
            None => {},
        }
    }
    CALLBACK_CONTINUE
}

} // verus!
