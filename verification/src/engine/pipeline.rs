//! What travels from stage to stage.

use crate::models::{EventInfo, RuntimeRule};
use std::sync::Arc;
use vstd::prelude::*;

verus! {

/// An event with the rules that are still alive for it.  Each stage hands on
/// a part of the rules it was given, in their order.
#[derive(Clone)]
pub struct PipelineMsg {
    pub event: EventInfo,
    pub rules: Vec<Arc<RuntimeRule>>,
}

/// Calls `Arc::clone`, which makes a second handle on the same rule.  Not
/// proved: that the handle is on the rule that `rule` is on.
#[verifier::external_body]
pub(crate) fn share(rule: &Arc<RuntimeRule>) -> (handle: Arc<RuntimeRule>)
    ensures
        handle == *rule,
{
    Arc::clone(rule)
}

/// Second handles on all of `rules`, in order.
pub fn share_all(rules: &Vec<Arc<RuntimeRule>>) -> (handles: Vec<Arc<RuntimeRule>>)
    ensures
        handles@ == rules@,
{
    let mut handles: Vec<Arc<RuntimeRule>> = Vec::new();
    let mut i: usize = 0;
    while i < rules.len()
        invariant
            i <= rules.len(),
            handles@ == rules@.take(i as int),
        decreases rules.len() - i,
    {
        handles.push(share(&rules[i]));
        assert(handles@ =~= rules@.take(i + 1));
        i = i + 1;
    }
    assert(rules@.take(rules.len() as int) =~= rules@);
    handles
}

/// The items of `items` whose place in `keep` holds `true`, in order.  A place
/// that `keep` lacks counts as `false`.
pub open spec fn masked<T>(items: Seq<T>, keep: Seq<bool>) -> Seq<T>
    decreases items.len(),
{
    if items.len() == 0 {
        items
    } else {
        let rest = masked(items.drop_last(), keep);
        if items.len() <= keep.len() && keep[items.len() - 1] {
            rest.push(items.last())
        } else {
            rest
        }
    }
}

/// Whatever stands in `masked(items, keep)` stands in `items`, at a place that
/// `keep` marks.
pub proof fn lemma_masked_within<T>(items: Seq<T>, keep: Seq<bool>, x: T)
    requires
        masked(items, keep).contains(x),
    ensures
        exists|i: int| 0 <= i < items.len() && i < keep.len() && keep[i] && items[i] == x,
    decreases items.len(),
{
    if items.len() > 0 {
        let rest = masked(items.drop_last(), keep);
        let last = items.len() - 1;
        if items.len() <= keep.len() && keep[last] && items.last() == x {
            assert(items[last] == x);
        } else {
            if items.len() <= keep.len() && keep[last] {
                let k = choose|k: int| 0 <= k < rest.push(items.last()).len() && rest.push(
                    items.last(),
                )[k] == x;
                assert(k < rest.len());
                assert(rest[k] == x);
            }
            assert(rest.contains(x));
            lemma_masked_within(items.drop_last(), keep, x);
            let i = choose|i: int|
                0 <= i < items.drop_last().len() && i < keep.len() && keep[i]
                    && items.drop_last()[i] == x;
            assert(items[i] == x);
        }
    }
}

/// The rules of `rules` that `keep` marks, in order.
pub fn retain(rules: Vec<Arc<RuntimeRule>>, keep: &Vec<bool>) -> (kept: Vec<Arc<RuntimeRule>>)
    ensures
        kept@ == masked(rules@, keep@),
{
    let mut kept: Vec<Arc<RuntimeRule>> = Vec::new();
    let ghost all = rules@;
    let n: usize = rules.len();
    let mut i: usize = 0;
    for rule in it: rules
        invariant
            it.seq() == all,
            all.len() == n,
            i == it.index(),
            kept@ == masked(all.take(i as int), keep@),
    {
        proof {
            assert(all.take(i + 1).drop_last() =~= all.take(i as int));
        }
        if i < keep.len() && keep[i] {
            kept.push(rule);
        }
        i = i + 1;
    }
    assert(all.take(all.len() as int) =~= all);
    kept
}

} // verus!
