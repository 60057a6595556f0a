//! Pruning of nested candidates.
//!
//! Deleting a directory removes everything beneath it, so an item whose
//! strict ancestor is also marked for deletion is redundant — and, worse,
//! a hazard for parallel deletion. The pruning pass sorts the items by
//! path depth (ties broken lexicographically) and keeps an item exactly
//! when no already-kept item is a strict ancestor of it.

use vstd::prelude::*;

use crate::paths::{
    count_depth, is_ancestor, is_ancestor_path, lemma_ancestor_ordering, lemma_lex_trichotomy,
    lemma_lex_transitive, lex_lt, path_depth, str_lex_lt,
};
use crate::types::CleanItem;

verus! {

/// The pruning order: shallower paths first, ties broken by
/// lexicographic path order.
pub open spec fn item_le(a: CleanItem, b: CleanItem) -> bool {
    path_depth(a.path@) < path_depth(b.path@) || (path_depth(a.path@) == path_depth(b.path@)
        && !lex_lt(b.path@, a.path@))
}

/// The order is total.
proof fn lemma_item_le_total(a: CleanItem, b: CleanItem)
    ensures
        item_le(a, b) || item_le(b, a),
{
    lemma_lex_trichotomy(a.path@, b.path@);
}

/// The order is transitive.
proof fn lemma_item_le_trans(a: CleanItem, b: CleanItem, c: CleanItem)
    requires
        item_le(a, b),
        item_le(b, c),
    ensures
        item_le(a, c),
{
    lemma_lex_trichotomy(a.path@, b.path@);
    lemma_lex_trichotomy(b.path@, c.path@);
    lemma_lex_trichotomy(a.path@, c.path@);
    if path_depth(a.path@) == path_depth(b.path@) && path_depth(b.path@) == path_depth(c.path@) {
        if lex_lt(c.path@, a.path@) {
            if lex_lt(a.path@, b.path@) {
                lemma_lex_transitive(c.path@, a.path@, b.path@);
            }
        }
    }
}

/// `s` is non-decreasing under the pruning order.
pub open spec fn sorted_items(s: Seq<CleanItem>) -> bool {
    forall|i: int, j: int| 0 <= i < j < s.len() ==> item_le(#[trigger] s[i], #[trigger] s[j])
}

/// Inserts `x` into `s` after every element that is `item_le` to it.
pub open spec fn spec_insert_sorted(x: CleanItem, s: Seq<CleanItem>) -> Seq<CleanItem>
    decreases s.len(),
{
    if s.len() == 0 {
        seq![x]
    } else if item_le(s.last(), x) {
        s.push(x)
    } else {
        spec_insert_sorted(x, s.drop_last()).push(s.last())
    }
}

/// Stable insertion sort under the pruning order.
pub open spec fn spec_sort_items(s: Seq<CleanItem>) -> Seq<CleanItem>
    decreases s.len(),
{
    if s.len() == 0 {
        s
    } else {
        spec_insert_sorted(s.last(), spec_sort_items(s.drop_last()))
    }
}

/// Some already-kept item is a strict ancestor of `x`.
pub open spec fn has_kept_ancestor(kept: Seq<CleanItem>, x: CleanItem) -> bool {
    exists|i: int| 0 <= i < kept.len() && is_ancestor_path(#[trigger] kept[i].path@, x.path@)
}

/// The elimination pass: walks `s` in order, keeping each item exactly
/// when no already-kept item is a strict ancestor of it.
pub open spec fn prune_loop(s: Seq<CleanItem>, kept: Seq<CleanItem>) -> Seq<CleanItem>
    decreases s.len(),
{
    if s.len() == 0 {
        kept
    } else if has_kept_ancestor(kept, s.first()) {
        prune_loop(s.drop_first(), kept)
    } else {
        prune_loop(s.drop_first(), kept.push(s.first()))
    }
}

/// What pruning yields: the elimination pass over the sorted items.
pub open spec fn spec_prune(s: Seq<CleanItem>) -> Seq<CleanItem> {
    prune_loop(spec_sort_items(s), Seq::empty())
}

/// The executable pruning order.
fn item_le_exec(a: &CleanItem, b: &CleanItem) -> (r: bool)
    ensures
        r == item_le(*a, *b),
{
    let da = count_depth(a.path.as_str());
    let db = count_depth(b.path.as_str());
    if da < db {
        true
    } else if da > db {
        false
    } else {
        !str_lex_lt(b.path.as_str(), a.path.as_str())
    }
}

/// When positions `j..` of `s` all refuse `item_le(_, x)` and position
/// `j - 1` (if any) accepts it, inserting `x` lands at position `j`.
proof fn lemma_insert_sorted_at(x: CleanItem, s: Seq<CleanItem>, j: int)
    requires
        0 <= j <= s.len(),
        forall|k: int| j <= k < s.len() ==> !item_le(#[trigger] s[k], x),
        j > 0 ==> item_le(s[j - 1], x),
    ensures
        spec_insert_sorted(x, s) == s.insert(j, x),
    decreases s.len() - j,
{
    if j == s.len() {
        if s.len() == 0 {
            assert(spec_insert_sorted(x, s) =~= s.insert(0, x));
        } else {
            assert(item_le(s.last(), x));
            assert(s.push(x) =~= s.insert(j, x));
        }
    } else {
        assert(!item_le(s.last(), x));
        lemma_insert_sorted_at(x, s.drop_last(), j);
        assert(s.drop_last().insert(j, x).push(s.last()) =~= s.insert(j, x));
    }
}

/// Inserts `x` into the sorted vector `out`, keeping it sorted.
fn insert_sorted(out: &mut Vec<CleanItem>, x: CleanItem)
    ensures
        final(out)@ == spec_insert_sorted(x, old(out)@),
{
    let mut j: usize = out.len();
    while j > 0 && !item_le_exec(&out[j - 1], &x)
        invariant
            j <= out.len(),
            out@ == old(out)@,
            forall|k: int| j <= k < out@.len() ==> !item_le(#[trigger] out@[k], x),
        decreases j,
    {
        j -= 1;
    }
    proof {
        lemma_insert_sorted_at(x, out@, j as int);
    }
    out.insert(j, x);
}

/// Sorts the items by the pruning order, stably.
fn sort_items(items: Vec<CleanItem>) -> (r: Vec<CleanItem>)
    ensures
        r@ == spec_sort_items(items@),
{
    let ghost orig = items@;
    let mut rest = items;
    let mut out: Vec<CleanItem> = Vec::new();
    proof {
        assert(orig.take(0) =~= Seq::<CleanItem>::empty());
        assert(orig.skip(0) =~= orig);
    }
    while rest.len() > 0
        invariant
            rest@.len() <= orig.len(),
            rest@ == orig.skip(orig.len() - rest@.len()),
            out@ == spec_sort_items(orig.take(orig.len() - rest@.len())),
        decreases rest@.len(),
    {
        let ghost k = orig.len() - rest@.len();
        let x = rest.remove(0);
        proof {
            assert(x == orig[k]);
            assert(rest@ =~= orig.skip(k + 1));
            let taken = orig.take(k + 1);
            assert(taken.drop_last() =~= orig.take(k));
            assert(taken.last() == orig[k]);
        }
        insert_sorted(&mut out, x);
    }
    proof {
        assert(orig.take(orig.len() as int) =~= orig);
    }
    out
}

/// Is some element of `kept` a strict ancestor of `x`?
fn has_ancestor_in(kept: &Vec<CleanItem>, x: &CleanItem) -> (r: bool)
    ensures
        r == has_kept_ancestor(kept@, *x),
{
    let n = kept.len();
    let mut i: usize = 0;
    while i < n
        invariant
            i <= n,
            n == kept@.len(),
            forall|j: int| 0 <= j < i ==> !is_ancestor_path(#[trigger] kept@[j].path@, x.path@),
        decreases n - i,
    {
        if is_ancestor(kept[i].path.as_str(), x.path.as_str()) {
            return true;
        }
        i += 1;
    }
    false
}

/// Removes every item whose deletion is already implied by a kept
/// ancestor's deletion.
///
/// The items are sorted by path depth, ties broken by lexicographic
/// path order, and walked in that order; an item is kept exactly when
/// no already-kept item is a strict ancestor of its path. The result is
/// `spec_prune` of the input, pinning both the surviving set and its
/// order.
pub fn prune_nested_items(items: Vec<CleanItem>) -> (r: Vec<CleanItem>)
    ensures
        r@ == spec_prune(items@),
{
    let ghost orig = items@;
    let sorted = sort_items(items);
    let mut rest = sorted;
    let mut kept: Vec<CleanItem> = Vec::new();
    while rest.len() > 0
        invariant
            prune_loop(rest@, kept@) == spec_prune(orig),
        decreases rest@.len(),
    {
        let ghost rest0 = rest@;
        let x = rest.remove(0);
        proof {
            assert(x == rest0.first());
            assert(rest@ =~= rest0.drop_first());
        }
        if !has_ancestor_in(&kept, &x) {
            kept.push(x);
        }
    }
    kept
}

/// No element of `s` is a strict ancestor of another element of `s`.
pub open spec fn ancestor_free(s: Seq<CleanItem>) -> bool {
    forall|i: int, j: int|
        0 <= i < s.len() && 0 <= j < s.len() && i != j ==> !is_ancestor_path(
            #[trigger] s[i].path@,
            #[trigger] s[j].path@,
        )
}

/// A strict ancestor sorts strictly before its descendant.
proof fn lemma_ancestor_item_lt(a: CleanItem, b: CleanItem)
    requires
        is_ancestor_path(a.path@, b.path@),
    ensures
        item_le(a, b),
        !item_le(b, a),
{
    lemma_ancestor_ordering(a.path@, b.path@);
    lemma_lex_trichotomy(a.path@, b.path@);
}

/// Inserting into a sorted sequence keeps it sorted, and the contents
/// grow by exactly the inserted element.
proof fn lemma_insert_sorted_props(x: CleanItem, s: Seq<CleanItem>)
    requires
        sorted_items(s),
    ensures
        sorted_items(spec_insert_sorted(x, s)),
        spec_insert_sorted(x, s).to_multiset() == s.to_multiset().insert(x),
    decreases s.len(),
{
    broadcast use vstd::seq_lib::group_to_multiset_ensures;

    let r = spec_insert_sorted(x, s);
    if s.len() == 0 {
        assert(seq![x] =~= Seq::<CleanItem>::empty().push(x));
        assert(r.to_multiset() =~= s.to_multiset().insert(x));
    } else if item_le(s.last(), x) {
        assert forall|i: int, j: int| 0 <= i < j < r.len() implies item_le(r[i], r[j]) by {
            if j == r.len() - 1 {
                if i < s.len() - 1 {
                    assert(item_le(s[i], s[s.len() - 1]));
                    lemma_item_le_trans(s[i], s.last(), x);
                } else {
                    assert(r[i] == s.last());
                }
            }
        }
    } else {
        let prefix = s.drop_last();
        assert(sorted_items(prefix));
        lemma_insert_sorted_props(x, prefix);
        let rp = spec_insert_sorted(x, prefix);
        lemma_item_le_total(s.last(), x);
        assert forall|i: int| 0 <= i < rp.len() implies item_le(rp[i], s.last()) by {
            assert(rp.contains(rp[i]));
            assert(rp.to_multiset().count(rp[i]) > 0);
            if rp[i] == x {
            } else {
                assert(prefix.to_multiset().count(rp[i]) > 0);
                assert(prefix.contains(rp[i]));
                let k = choose|k: int| 0 <= k < prefix.len() && prefix[k] == rp[i];
                assert(item_le(s[k], s[s.len() - 1]));
            }
        }
        assert(sorted_items(r)) by {
            assert forall|i: int, j: int| 0 <= i < j < r.len() implies item_le(r[i], r[j]) by {
                if j < r.len() - 1 {
                    assert(item_le(rp[i], rp[j]));
                }
            }
        }
        assert(s =~= prefix.push(s.last()));
        assert(r.to_multiset() =~= s.to_multiset().insert(x)) by {
            assert(r == rp.push(s.last()));
            assert(rp.to_multiset() == prefix.to_multiset().insert(x));
        }
    }
}

/// The sorting pass sorts, and keeps exactly the input contents.
proof fn lemma_sort_items_props(s: Seq<CleanItem>)
    ensures
        sorted_items(spec_sort_items(s)),
        spec_sort_items(s).to_multiset() == s.to_multiset(),
    decreases s.len(),
{
    broadcast use vstd::seq_lib::group_to_multiset_ensures;

    if s.len() > 0 {
        lemma_sort_items_props(s.drop_last());
        lemma_insert_sorted_props(s.last(), spec_sort_items(s.drop_last()));
        assert(s =~= s.drop_last().push(s.last()));
    }
}

/// Sorting an already-sorted sequence leaves it unchanged.
proof fn lemma_sort_of_sorted(s: Seq<CleanItem>)
    requires
        sorted_items(s),
    ensures
        spec_sort_items(s) == s,
    decreases s.len(),
{
    if s.len() > 0 {
        let prefix = s.drop_last();
        assert(sorted_items(prefix));
        lemma_sort_of_sorted(prefix);
        if prefix.len() == 0 {
            assert(spec_insert_sorted(s.last(), prefix) =~= s);
        } else {
            assert(item_le(s[s.len() - 2], s[s.len() - 1]));
            assert(prefix.last() == s[s.len() - 2]);
            assert(prefix.push(s.last()) =~= s);
        }
    }
}

/// The elimination pass over sorted input, starting from an
/// ancestor-free kept set no pending item is an ancestor of, yields an
/// ancestor-free, sorted result.
proof fn lemma_prune_loop_props(s: Seq<CleanItem>, kept: Seq<CleanItem>)
    requires
        sorted_items(s),
        sorted_items(kept),
        ancestor_free(kept),
        forall|i: int, j: int|
            0 <= i < s.len() && 0 <= j < kept.len() ==> !is_ancestor_path(
                #[trigger] s[i].path@,
                #[trigger] kept[j].path@,
            ),
        forall|i: int, j: int|
            0 <= i < s.len() && 0 <= j < kept.len() ==> item_le(
                #[trigger] kept[j],
                #[trigger] s[i],
            ),
    ensures
        ancestor_free(prune_loop(s, kept)),
        sorted_items(prune_loop(s, kept)),
    decreases s.len(),
{
    if s.len() > 0 {
        let x = s.first();
        let rest = s.drop_first();
        assert(sorted_items(rest)) by {
            assert forall|i: int, j: int| 0 <= i < j < rest.len() implies item_le(
                rest[i],
                rest[j],
            ) by {
                assert(item_le(s[i + 1], s[j + 1]));
            }
        }
        if has_kept_ancestor(kept, x) {
            assert forall|i: int, j: int|
                0 <= i < rest.len() && 0 <= j < kept.len() implies !is_ancestor_path(
                rest[i].path@,
                kept[j].path@,
            ) by {
                assert(!is_ancestor_path(s[i + 1].path@, kept[j].path@));
            }
            assert forall|i: int, j: int|
                0 <= i < rest.len() && 0 <= j < kept.len() implies item_le(kept[j], rest[i]) by {
                assert(item_le(kept[j], s[i + 1]));
            }
            lemma_prune_loop_props(rest, kept);
        } else {
            let kept2 = kept.push(x);
            assert(sorted_items(kept2)) by {
                assert forall|i: int, j: int| 0 <= i < j < kept2.len() implies item_le(
                    kept2[i],
                    kept2[j],
                ) by {
                    if j == kept2.len() - 1 {
                        assert(item_le(kept[i], s[0]));
                    }
                }
            }
            assert(ancestor_free(kept2)) by {
                assert forall|i: int, j: int|
                    0 <= i < kept2.len() && 0 <= j < kept2.len() && i != j implies !is_ancestor_path(
                    kept2[i].path@,
                    kept2[j].path@,
                ) by {
                    if i == kept2.len() - 1 {
                        // x is not an ancestor of any kept element
                        assert(!is_ancestor_path(s[0].path@, kept[j].path@));
                    } else if j == kept2.len() - 1 {
                        // no kept element is an ancestor of x: the guard failed
                        assert(kept2[j] == x);
                        if is_ancestor_path(kept[i].path@, x.path@) {
                            assert(has_kept_ancestor(kept, x));
                        }
                    }
                }
            }
            assert forall|i: int, j: int|
                0 <= i < rest.len() && 0 <= j < kept2.len() implies !is_ancestor_path(
                rest[i].path@,
                kept2[j].path@,
            ) by {
                if j < kept.len() {
                    assert(!is_ancestor_path(s[i + 1].path@, kept[j].path@));
                } else {
                    // a later, no-shallower item cannot be a strict
                    // ancestor of x
                    assert(kept2[j] == x);
                    assert(item_le(x, s[i + 1]));
                    if is_ancestor_path(s[i + 1].path@, x.path@) {
                        lemma_ancestor_item_lt(s[i + 1], x);
                        lemma_item_le_trans(x, s[i + 1], x);
                    }
                }
            }
            assert forall|i: int, j: int|
                0 <= i < rest.len() && 0 <= j < kept2.len() implies item_le(kept2[j], rest[i]) by {
                if j < kept.len() {
                    assert(item_le(kept[j], s[i + 1]));
                } else {
                    assert(item_le(x, s[i + 1]));
                }
            }
            lemma_prune_loop_props(rest, kept2);
        }
    }
}

/// On an ancestor-free input the elimination pass keeps everything.
proof fn lemma_prune_loop_id(s: Seq<CleanItem>, kept: Seq<CleanItem>)
    requires
        ancestor_free(kept + s),
    ensures
        prune_loop(s, kept) == kept + s,
    decreases s.len(),
{
    if s.len() == 0 {
        assert(kept + s =~= kept);
    } else {
        let x = s.first();
        let whole = kept + s;
        assert(whole[kept.len() as int] == x);
        assert(!has_kept_ancestor(kept, x)) by {
            if has_kept_ancestor(kept, x) {
                let i = choose|i: int|
                    0 <= i < kept.len() && is_ancestor_path(kept[i].path@, x.path@);
                assert(whole[i] == kept[i]);
            }
        }
        assert(kept.push(x) + s.drop_first() =~= kept + s);
        lemma_prune_loop_id(s.drop_first(), kept.push(x));
    }
}

/// Pruning leaves no ancestor/descendant pair among the survivors: for
/// any two distinct surviving items, neither path names a directory
/// strictly containing the other.
pub proof fn lemma_prune_ancestor_free(items: Seq<CleanItem>)
    ensures
        ancestor_free(spec_prune(items)),
        sorted_items(spec_prune(items)),
{
    lemma_sort_items_props(items);
    lemma_prune_loop_props(spec_sort_items(items), Seq::empty());
}

/// The elimination pass only ever appends: what was kept stays, in place.
proof fn lemma_prune_loop_prefix(s: Seq<CleanItem>, kept: Seq<CleanItem>)
    ensures
        kept.is_prefix_of(prune_loop(s, kept)),
    decreases s.len(),
{
    if s.len() > 0 {
        if has_kept_ancestor(kept, s.first()) {
            lemma_prune_loop_prefix(s.drop_first(), kept);
        } else {
            lemma_prune_loop_prefix(s.drop_first(), kept.push(s.first()));
            assert(kept.is_prefix_of(kept.push(s.first())));
        }
    }
}

/// Every pending item either survives the pass or has a surviving
/// strict ancestor.
proof fn lemma_prune_loop_covers(s: Seq<CleanItem>, kept: Seq<CleanItem>, k: int)
    requires
        0 <= k < s.len(),
    ensures
        prune_loop(s, kept).contains(s[k]) || (exists|j: int|
            0 <= j < prune_loop(s, kept).len() && is_ancestor_path(
                #[trigger] prune_loop(s, kept)[j].path@,
                s[k].path@,
            )),
    decreases s.len(),
{
    let result = prune_loop(s, kept);
    if k == 0 {
        if has_kept_ancestor(kept, s.first()) {
            let i = choose|i: int|
                0 <= i < kept.len() && is_ancestor_path(kept[i].path@, s.first().path@);
            lemma_prune_loop_prefix(s, kept);
            assert(result[i] == kept[i]);
        } else {
            let kept2 = kept.push(s.first());
            lemma_prune_loop_prefix(s.drop_first(), kept2);
            assert(result[kept.len() as int] == kept2[kept.len() as int]);
            assert(result.contains(s[0]));
        }
    } else {
        if has_kept_ancestor(kept, s.first()) {
            lemma_prune_loop_covers(s.drop_first(), kept, k - 1);
        } else {
            lemma_prune_loop_covers(s.drop_first(), kept.push(s.first()), k - 1);
        }
        assert(s.drop_first()[k - 1] == s[k]);
    }
}

/// Every element of the pass's result was kept before or is pending.
proof fn lemma_prune_loop_membership(s: Seq<CleanItem>, kept: Seq<CleanItem>, j: int)
    requires
        0 <= j < prune_loop(s, kept).len(),
    ensures
        kept.contains(prune_loop(s, kept)[j]) || s.contains(prune_loop(s, kept)[j]),
    decreases s.len(),
{
    if s.len() > 0 {
        let x = prune_loop(s, kept)[j];
        if has_kept_ancestor(kept, s.first()) {
            lemma_prune_loop_membership(s.drop_first(), kept, j);
            if s.drop_first().contains(x) {
                let i = choose|i: int| 0 <= i < s.drop_first().len() && s.drop_first()[i] == x;
                assert(s[i + 1] == x);
            }
        } else {
            let kept2 = kept.push(s.first());
            lemma_prune_loop_membership(s.drop_first(), kept2, j);
            if kept2.contains(x) {
                let i = choose|i: int| 0 <= i < kept2.len() && kept2[i] == x;
                if i == kept.len() {
                    assert(s[0] == x);
                }
            } else {
                let i = choose|i: int| 0 <= i < s.drop_first().len() && s.drop_first()[i] == x;
                assert(s[i + 1] == x);
            }
        }
    }
}

/// No survivor comes from nowhere: every pruned item is one of the
/// input items.
pub proof fn lemma_prune_sound(items: Seq<CleanItem>, j: int)
    requires
        0 <= j < spec_prune(items).len(),
    ensures
        items.contains(spec_prune(items)[j]),
{
    broadcast use vstd::seq_lib::group_to_multiset_ensures;

    let sorted = spec_sort_items(items);
    lemma_prune_loop_membership(sorted, Seq::empty(), j);
    lemma_sort_items_props(items);
    assert(sorted.contains(spec_prune(items)[j]));
    assert(sorted.to_multiset().count(spec_prune(items)[j]) > 0);
}

/// Nothing is dropped without cause: every input item either survives
/// pruning or has a surviving strict ancestor, whose deletion implies
/// its own.
pub proof fn lemma_prune_complete(items: Seq<CleanItem>, i: int)
    requires
        0 <= i < items.len(),
    ensures
        spec_prune(items).contains(items[i]) || (exists|j: int|
            0 <= j < spec_prune(items).len() && is_ancestor_path(
                #[trigger] spec_prune(items)[j].path@,
                items[i].path@,
            )),
{
    broadcast use vstd::seq_lib::group_to_multiset_ensures;

    let sorted = spec_sort_items(items);
    lemma_sort_items_props(items);
    assert(items.contains(items[i]));
    assert(items.to_multiset().count(items[i]) > 0);
    assert(sorted.contains(items[i]));
    let k = choose|k: int| 0 <= k < sorted.len() && sorted[k] == items[i];
    lemma_prune_loop_covers(sorted, Seq::empty(), k);
}

/// Pruning is idempotent: pruning an already-pruned item list changes
/// nothing.
pub proof fn lemma_prune_idempotent(items: Seq<CleanItem>)
    ensures
        spec_prune(spec_prune(items)) == spec_prune(items),
{
    let t = spec_prune(items);
    lemma_prune_ancestor_free(items);
    lemma_sort_of_sorted(t);
    assert(Seq::<CleanItem>::empty() + t =~= t);
    lemma_prune_loop_id(t, Seq::empty());
}

} // verus!

