//! Totals grouped by a key (a period, or an agent and a model), and the laws of such sums.
use vstd::prelude::*;
use crate::totals::{TokenTotals, Tally, tally_fits, tally_add, tally_zero, law_tally_add_commutative, law_tally_add_associative, law_tally_zero_neutral};

verus! {

/// The sum of the totals of the entries filed under `k`, in entry order.
pub open spec fn keyed_tally<K>(es: Seq<(K, TokenTotals)>, k: K) -> Tally
    decreases es.len(),
{
    if es.len() == 0 {
        tally_zero()
    } else {
        let prev = keyed_tally(es.drop_last(), k);
        if es.last().0 == k {
            tally_add(prev, es.last().1.tally())
        } else {
            prev
        }
    }
}

/// Whether some entry is filed under `k`.
pub open spec fn has_key<K>(es: Seq<(K, TokenTotals)>, k: K) -> bool {
    exists|i: int| 0 <= i < es.len() && (#[trigger] es[i]).0 == k
}

/// Whether every running sum of every key, taken in entry order, can be held in a
/// `TokenTotals`: the condition under which adding the entries up one by one never
/// overflows.
pub open spec fn groups_fit<K>(es: Seq<(K, TokenTotals)>) -> bool {
    forall|n: int, k: K| 0 <= n <= es.len() ==> tally_fits(#[trigger] keyed_tally(es.take(n), k))
}

/// Adding an entry adds its totals to its own key and to no other.
pub(crate) proof fn lemma_keyed_tally_push<K>(es: Seq<(K, TokenTotals)>, e: (K, TokenTotals), k: K)
    ensures
        keyed_tally(es.push(e), k) == if e.0 == k {
            tally_add(keyed_tally(es, k), e.1.tally())
        } else {
            keyed_tally(es, k)
        },
{
    assert(es.push(e).drop_last() == es);
}

/// A key that no entry is filed under has nothing filed under it.
pub(crate) proof fn lemma_absent_key_zero<K>(es: Seq<(K, TokenTotals)>, k: K)
    requires
        !has_key(es, k),
    ensures
        keyed_tally(es, k) == tally_zero(),
    decreases es.len(),
{
    if es.len() > 0 {
        assert(es.last() == es[es.len() - 1]);
        assert forall|i: int| 0 <= i < es.drop_last().len() implies (
        #[trigger] es.drop_last()[i]).0 != k by {
            assert(es.drop_last()[i] == es[i]);
        }
        lemma_absent_key_zero(es.drop_last(), k);
    }
}

/// The running sums still fit after one more entry exactly when they did before and the
/// new entry's group fits.
pub(crate) proof fn lemma_groups_fit_push<K>(es: Seq<(K, TokenTotals)>, e: (K, TokenTotals))
    ensures
        groups_fit(es.push(e)) <==> (groups_fit(es) && tally_fits(keyed_tally(es.push(e), e.0))),
{
    let full = es.push(e);
    assert(full.take(full.len() as int) == full);
    if groups_fit(full) {
        assert forall|n: int, k: K| 0 <= n <= es.len() implies tally_fits(
            #[trigger] keyed_tally(es.take(n), k),
        ) by {
            assert(full.take(n) == es.take(n));
            assert(tally_fits(keyed_tally(full.take(n), k)));
        }
        assert(tally_fits(keyed_tally(full.take(full.len() as int), e.0)));
    }
    if groups_fit(es) && tally_fits(keyed_tally(es.push(e), e.0)) {
        assert forall|n: int, k: K| 0 <= n <= full.len() implies tally_fits(
            #[trigger] keyed_tally(full.take(n), k),
        ) by {
            if n <= es.len() {
                assert(full.take(n) == es.take(n));
            } else {
                assert(full.take(n) == full);
                lemma_keyed_tally_push(es, e, k);
                assert(es.take(es.len() as int) == es);
                assert(tally_fits(keyed_tally(es.take(es.len() as int), k)));
            }
        }
    }
}

/// Running sums that fit over all entries fit over the first ones.
pub(crate) proof fn lemma_groups_fit_prefix<K>(es: Seq<(K, TokenTotals)>, m: int)
    requires
        groups_fit(es),
        0 <= m <= es.len(),
    ensures
        groups_fit(es.take(m)),
{
    assert forall|n: int, k: K| 0 <= n <= es.take(m).len() implies tally_fits(
        #[trigger] keyed_tally(es.take(m).take(n), k),
    ) by {
        assert(es.take(m).take(n) == es.take(n));
        assert(tally_fits(keyed_tally(es.take(n), k)));
    }
}

/// No entries, no overflow.
pub(crate) proof fn lemma_groups_fit_empty<K>(es: Seq<(K, TokenTotals)>)
    requires
        es.len() == 0,
    ensures
        groups_fit(es),
{
    assert forall|n: int, k: K| 0 <= n <= es.len() implies tally_fits(
        #[trigger] keyed_tally(es.take(n), k),
    ) by {
        assert(es.take(n).len() == 0);
    }
}

/// The sum of all entries' totals, in entry order.
pub open spec fn entries_sum<K>(es: Seq<(K, TokenTotals)>) -> Tally
    decreases es.len(),
{
    if es.len() == 0 {
        tally_zero()
    } else {
        tally_add(entries_sum(es.drop_last()), es.last().1.tally())
    }
}

/// The sum, over `keys` in order, of the total filed under each key.
pub open spec fn groups_sum<K>(keys: Seq<K>, es: Seq<(K, TokenTotals)>) -> Tally
    decreases keys.len(),
{
    if keys.len() == 0 {
        tally_zero()
    } else {
        tally_add(groups_sum(keys.drop_last(), es), keyed_tally(es, keys.last()))
    }
}

/// No key occurs twice in `keys`.
pub open spec fn distinct<K>(keys: Seq<K>) -> bool {
    forall|a: int, b: int| 0 <= a < b < keys.len() ==> keys[a] != keys[b]
}

proof fn lemma_groups_sum_empty<K>(keys: Seq<K>, es: Seq<(K, TokenTotals)>)
    requires
        es.len() == 0,
    ensures
        groups_sum(keys, es) == tally_zero(),
    decreases keys.len(),
{
    if keys.len() > 0 {
        lemma_groups_sum_empty(keys.drop_last(), es);
        law_tally_zero_neutral(tally_zero());
    }
}

proof fn lemma_groups_sum_push<K>(keys: Seq<K>, es: Seq<(K, TokenTotals)>, e: (K, TokenTotals))
    requires
        distinct(keys),
    ensures
        groups_sum(keys, es.push(e)) == if keys.contains(e.0) {
            tally_add(groups_sum(keys, es), e.1.tally())
        } else {
            groups_sum(keys, es)
        },
    decreases keys.len(),
{
    if keys.len() > 0 {
        let init = keys.drop_last();
        let x = keys.last();
        assert(distinct(init)) by {
            assert forall|a: int, b: int| 0 <= a < b < init.len() implies init[a] != init[b] by {
                assert(init[a] == keys[a] && init[b] == keys[b]);
            }
        }
        lemma_groups_sum_push(init, es, e);
        lemma_keyed_tally_push(es, e, x);
        let g = groups_sum(init, es);
        let kt = keyed_tally(es, x);
        let t = e.1.tally();
        if x == e.0 {
            assert(!init.contains(e.0)) by {
                if init.contains(e.0) {
                    let a = choose|a: int| 0 <= a < init.len() && init[a] == e.0;
                    assert(keys[a] == keys[keys.len() - 1]);
                }
            }
            assert(keys.contains(e.0)) by {
                assert(keys[keys.len() - 1] == e.0);
            }
            law_tally_add_associative(g, kt, t);
        } else {
            assert(keys.contains(e.0) == init.contains(e.0)) by {
                if keys.contains(e.0) {
                    let a = choose|a: int| 0 <= a < keys.len() && keys[a] == e.0;
                    assert(a < keys.len() - 1);
                    assert(init[a] == e.0);
                }
                if init.contains(e.0) {
                    let a = choose|a: int| 0 <= a < init.len() && init[a] == e.0;
                    assert(keys[a] == e.0);
                }
            }
            if init.contains(e.0) {
                law_tally_add_associative(g, t, kt);
                law_tally_add_commutative(t, kt);
                law_tally_add_associative(g, kt, t);
            }
        }
    }
}

/// Grouping loses and invents nothing: where `keys` lists each key once and holds every
/// key that an entry is filed under, the groups' totals add up to the sum of all entries.
pub proof fn law_groups_sum_is_entries_sum<K>(keys: Seq<K>, es: Seq<(K, TokenTotals)>)
    requires
        distinct(keys),
        forall|k: K| #[trigger] has_key(es, k) ==> keys.contains(k),
    ensures
        groups_sum(keys, es) == entries_sum(es),
    decreases es.len(),
{
    if es.len() == 0 {
        lemma_groups_sum_empty(keys, es);
    } else {
        let init = es.drop_last();
        let e = es.last();
        assert forall|k: K| #[trigger] has_key(init, k) implies keys.contains(k) by {
            let i = choose|i: int| 0 <= i < init.len() && (#[trigger] init[i]).0 == k;
            assert(es[i] == init[i]);
            assert(has_key(es, k));
        }
        law_groups_sum_is_entries_sum(keys, init);
        assert(es[es.len() - 1] == e);
        assert(has_key(es, e.0));
        assert(init.push(e) == es);
        lemma_groups_sum_push(keys, init, e);
    }
}

} // verus!
