//! The sum of the amounts that a finite map holds, and how it changes when
//! one entry does.

use vstd::prelude::*;

verus! {

/// The sum of all amounts in a finite map. Of a map with infinitely many
/// keys nothing is said.
pub open spec fn total<K>(amounts: Map<K, nat>) -> nat
    decreases amounts.dom().len(),
    when amounts.dom().finite()
    via total_decreases::<K>
{
    if amounts.dom().len() == 0 {
        0
    } else {
        let key = amounts.dom().choose();
        amounts[key] + total(amounts.remove(key))
    }
}

#[via_fn]
proof fn total_decreases<K>(amounts: Map<K, nat>) {
    if amounts.dom().len() != 0 {
        let key = amounts.dom().choose();
        lemma_nonempty_has_chosen(amounts.dom());
        assert(amounts.remove(key).dom() =~= amounts.dom().remove(key));
    }
}

proof fn lemma_nonempty_has_chosen<K>(keys: Set<K>)
    requires
        keys.finite(),
        keys.len() != 0,
    ensures
        keys.contains(keys.choose()),
        keys.remove(keys.choose()).len() == keys.len() - 1,
{
    if keys =~= Set::empty() {
        assert(keys.len() == 0);
    }
    let witness = choose|k: K| keys.contains(k);
    assert(keys.contains(witness));
}

/// An empty map sums to zero.
pub proof fn lemma_total_empty<K>()
    ensures
        total(Map::<K, nat>::empty()) == 0,
{
    assert(Map::<K, nat>::empty().dom() =~= Set::empty());
}

/// The sum is the amount under any one key plus the sum of the rest.
pub proof fn lemma_total_remove<K>(amounts: Map<K, nat>, key: K)
    requires
        amounts.dom().finite(),
        amounts.contains_key(key),
    ensures
        total(amounts) == amounts[key] + total(amounts.remove(key)),
    decreases amounts.dom().len(),
{
    lemma_nonempty_has_chosen_of(amounts.dom(), key);
    let chosen = amounts.dom().choose();
    if chosen != key {
        let rest = amounts.remove(chosen);
        assert(rest.dom() =~= amounts.dom().remove(chosen));
        lemma_total_remove(rest, key);
        let others = amounts.remove(key);
        assert(others.dom() =~= amounts.dom().remove(key));
        lemma_total_remove(others, chosen);
        assert(rest.remove(key) =~= others.remove(chosen));
    }
}

proof fn lemma_nonempty_has_chosen_of<K>(keys: Set<K>, member: K)
    requires
        keys.finite(),
        keys.contains(member),
    ensures
        keys.len() != 0,
        keys.contains(keys.choose()),
        keys.remove(keys.choose()).len() == keys.len() - 1,
        keys.remove(member).len() == keys.len() - 1,
{
    if keys.len() == 0 {
        assert(keys =~= Set::empty());
    }
    lemma_nonempty_has_chosen(keys);
}

/// Storing an amount under a key changes the sum by the difference to what
/// was stored there.
pub proof fn lemma_total_insert<K>(amounts: Map<K, nat>, key: K, amount: nat)
    requires
        amounts.dom().finite(),
    ensures
        amounts.insert(key, amount).dom().finite(),
        total(amounts.insert(key, amount)) + (if amounts.contains_key(key) {
            amounts[key]
        } else {
            0
        }) == total(amounts) + amount,
{
    let stored = amounts.insert(key, amount);
    lemma_total_remove(stored, key);
    if amounts.contains_key(key) {
        lemma_total_remove(amounts, key);
        assert(stored.remove(key) =~= amounts.remove(key));
    } else {
        assert(stored.remove(key) =~= amounts);
    }
}

/// No single amount is more than the sum.
pub proof fn lemma_total_covers<K>(amounts: Map<K, nat>, key: K)
    requires
        amounts.dom().finite(),
        amounts.contains_key(key),
    ensures
        amounts[key] <= total(amounts),
{
    lemma_total_remove(amounts, key);
}

/// Two different amounts together are no more than the sum.
pub proof fn lemma_total_covers_two<K>(amounts: Map<K, nat>, one: K, other: K)
    requires
        amounts.dom().finite(),
        amounts.contains_key(one),
        amounts.contains_key(other),
        one != other,
    ensures
        amounts[one] + amounts[other] <= total(amounts),
{
    lemma_total_remove(amounts, one);
    lemma_total_covers(amounts.remove(one), other);
}

/// The map that gives each of the first `count` keys its amount.
pub open spec fn tally<K>(keys: Seq<K>, amounts: Seq<nat>, count: nat) -> Map<K, nat>
    decreases count,
{
    if count == 0 {
        Map::empty()
    } else {
        tally(keys, amounts, (count - 1) as nat).insert(keys[count - 1], amounts[count - 1])
    }
}

/// The sum of the first `count` amounts.
pub open spec fn sum_of(amounts: Seq<nat>, count: nat) -> nat
    decreases count,
{
    if count == 0 {
        0
    } else {
        sum_of(amounts, (count - 1) as nat) + amounts[count - 1]
    }
}

/// The sum of the first amounts is no more than the sum of more of them.
pub proof fn lemma_sum_of_grows(amounts: Seq<nat>, fewer: nat, more: nat)
    requires
        fewer <= more,
    ensures
        sum_of(amounts, fewer) <= sum_of(amounts, more),
    decreases more,
{
    if fewer < more {
        lemma_sum_of_grows(amounts, fewer, (more - 1) as nat);
    }
}

/// Where all keys differ, the map of the first `count` keys is finite, holds
/// exactly those keys with their amounts, and sums to the sum of the
/// amounts.
pub proof fn lemma_tally<K>(keys: Seq<K>, amounts: Seq<nat>, count: nat)
    requires
        keys.len() == amounts.len(),
        count <= keys.len(),
        forall|i: int, j: int| 0 <= i < j < keys.len() ==> keys[i] != keys[j],
    ensures
        tally(keys, amounts, count).dom().finite(),
        total(tally(keys, amounts, count)) == sum_of(amounts, count),
        forall|i: int|
            0 <= i < count ==> tally(keys, amounts, count).contains_key(#[trigger] keys[i])
                && tally(keys, amounts, count)[keys[i]] == amounts[i],
        forall|key: K| #[trigger]
            tally(keys, amounts, count).contains_key(key) ==> exists|i: int|
                0 <= i < count && #[trigger] keys[i] == key,
    decreases count,
{
    if count == 0 {
        lemma_total_empty::<K>();
    } else {
        let before = tally(keys, amounts, (count - 1) as nat);
        lemma_tally(keys, amounts, (count - 1) as nat);
        if before.contains_key(keys[count - 1]) {
            let i = choose|i: int| 0 <= i < count - 1 && #[trigger] keys[i] == keys[count - 1];
            assert(keys[i] != keys[count - 1]);
        }
        lemma_total_insert(before, keys[count - 1], amounts[count - 1]);
    }
}

/// A map sums to the sum of a list of amounts where the list names every
/// key of the map once, each with its amount. Such a map is finite.
pub proof fn lemma_listed_total<K>(keys: Seq<K>, amounts: Seq<nat>, held: Map<K, nat>)
    requires
        keys.len() == amounts.len(),
        forall|i: int, j: int| 0 <= i < j < keys.len() ==> keys[i] != keys[j],
        forall|i: int|
            0 <= i < keys.len() ==> held.contains_key(#[trigger] keys[i]) && held[keys[i]]
                == amounts[i],
        forall|key: K| #[trigger]
            held.contains_key(key) ==> exists|i: int|
                0 <= i < keys.len() && #[trigger] keys[i] == key,
    ensures
        held.dom().finite(),
        total(held) == sum_of(amounts, keys.len()),
{
    lemma_tally(keys, amounts, keys.len());
    let listed = tally(keys, amounts, keys.len());
    assert forall|key: K|
        #![trigger listed.dom().contains(key)]
        #![trigger held.dom().contains(key)]
        listed.dom().contains(key) == held.dom().contains(key) by {
        if listed.contains_key(key) {
            let i = choose|i: int| 0 <= i < keys.len() && #[trigger] keys[i] == key;
        }
        if held.contains_key(key) {
            let i = choose|i: int| 0 <= i < keys.len() && #[trigger] keys[i] == key;
        }
    }
    assert(listed.dom() =~= held.dom());
    assert forall|key: K| listed.contains_key(key) implies listed[key] == held[key] by {
        let i = choose|i: int| 0 <= i < keys.len() && #[trigger] keys[i] == key;
    }
    assert(listed =~= held);
}

} // verus!
