//! Arrays that end at a marker.
//!
//! The native engine seldom stores a length. An array of records, like a C
//! string, runs until the first element that a predicate recognises as the
//! terminator. A captured array may also simply end: the end of the snapshot
//! then stands for the terminator.

use vstd::prelude::*;

verus! {

/// How many elements precede the first one at which `stop` holds; all of them
/// where it holds at none.
pub open spec fn live_len<T>(items: Seq<T>, stop: spec_fn(T) -> bool) -> nat
    decreases items.len(),
{
    if items.len() == 0 || stop(items[0]) {
        0
    } else {
        1 + live_len(items.skip(1), stop)
    }
}

/// The elements before the terminator.
pub open spec fn live<T>(items: Seq<T>, stop: spec_fn(T) -> bool) -> Seq<T> {
    items.take(live_len(items, stop) as int)
}

/// `stop` holds at no element of `items`.
pub open spec fn none_stops<T>(items: Seq<T>, stop: spec_fn(T) -> bool) -> bool {
    forall|i: int| 0 <= i < items.len() ==> !stop(#[trigger] items[i])
}

/// The live elements lie within the array, none of them is a terminator, and
/// a terminator follows them unless they run to the array's end.
pub proof fn lemma_live_shape<T>(items: Seq<T>, stop: spec_fn(T) -> bool)
    ensures
        live_len(items, stop) <= items.len(),
        live(items, stop).len() == live_len(items, stop),
        none_stops(live(items, stop), stop),
        live_len(items, stop) < items.len() ==> stop(items[live_len(items, stop) as int]),
    decreases items.len(),
{
    if items.len() == 0 || stop(items[0]) {
    } else {
        let rest = items.skip(1);
        lemma_live_shape(rest, stop);
        let mine = live(items, stop);
        assert forall|i: int| 0 <= i < mine.len() implies !stop(#[trigger] mine[i]) by {
            if i > 0 {
                assert(mine[i] == live(rest, stop)[i - 1]);
            }
        }
    }
}

/// The length of the live part is the one position that ends a prefix free of
/// terminators.
pub proof fn lemma_live_len_unique<T>(items: Seq<T>, stop: spec_fn(T) -> bool, n: int)
    requires
        0 <= n <= items.len(),
        none_stops(items.take(n), stop),
        n == items.len() || stop(items[n]),
    ensures
        live_len(items, stop) == n,
    decreases items.len(),
{
    if n > 0 {
        assert(items.take(n)[0] == items[0]);
        let rest = items.skip(1);
        let shorter = rest.take(n - 1);
        assert forall|i: int| 0 <= i < shorter.len() implies !stop(#[trigger] shorter[i]) by {
            assert(shorter[i] == items.take(n)[i + 1]);
        }
        lemma_live_len_unique(rest, stop, n - 1);
    }
}

/// Reading back what was laid out: elements free of terminators, then a
/// terminator, then anything at all, have exactly those elements live.
pub proof fn lemma_live_of_terminated<T>(
    body: Seq<T>,
    end: T,
    rest: Seq<T>,
    stop: spec_fn(T) -> bool,
)
    requires
        none_stops(body, stop),
        stop(end),
    ensures
        live(body + seq![end] + rest, stop) == body,
{
    let items = body + seq![end] + rest;
    let head = items.take(body.len() as int);
    assert(head =~= body);
    assert(items[body.len() as int] == end);
    lemma_live_len_unique(items, stop, body.len() as int);
}

/// What is live after a live first element is what is live in the rest.
pub proof fn lemma_live_step<T>(items: Seq<T>, stop: spec_fn(T) -> bool)
    requires
        items.len() > 0,
        !stop(items[0]),
    ensures
        live(items, stop) == seq![items[0]] + live(items.skip(1), stop),
{
    lemma_live_shape(items.skip(1), stop);
    assert(live(items, stop) =~= seq![items[0]] + live(items.skip(1), stop));
}

} // verus!
