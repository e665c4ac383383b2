//! What holds of every ranking of categories and of every dataset folded
//! from one.

use vstd::prelude::*;
use vstd::string::*;
use crate::chart::categories::{
    distinct, lemma_distinct_contains, lemma_distinct_no_duplicates, lemma_occurrences_positive,
    lemma_occurrences_push, lemma_ranked_keeps_sum, lemma_view_sum_push,
    lemma_view_sum_split, occurrences, other_label, place, ranked, spec_category_dataset,
    spec_groups, spec_ranking, view_sum,
};

verus! {

/// The position at which `key` first occurs among `keys`.
pub open spec fn first_position(keys: Seq<Seq<char>>, key: Seq<char>) -> int
    decreases keys.len(),
{
    if keys.len() == 0 {
        0
    } else if keys.drop_last().contains(key) {
        first_position(keys.drop_last(), key)
    } else {
        keys.len() - 1
    }
}

/// Entry `a` stands before entry `b` in a ranking: it has more records, or
/// as many and its category is met first.
pub open spec fn ranks_before(keys: Seq<Seq<char>>, a: (Seq<char>, nat), b: (Seq<char>, nat)) -> bool {
    a.1 > b.1 || (a.1 == b.1 && first_position(keys, a.0) < first_position(keys, b.0))
}

/// The first position of a category that occurs is the least position that
/// holds it.
pub proof fn lemma_first_position(keys: Seq<Seq<char>>, key: Seq<char>)
    requires
        keys.contains(key),
    ensures
        0 <= first_position(keys, key) < keys.len(),
        keys[first_position(keys, key)] == key,
        forall|j: int| 0 <= j < first_position(keys, key) ==> keys[j] != key,
    decreases keys.len(),
{
    let front = keys.drop_last();
    if front.contains(key) {
        lemma_first_position(front, key);
        assert forall|j: int| 0 <= j < first_position(keys, key) implies keys[j] != key by {
            assert(front[j] == keys[j]);
        }
        assert(front[first_position(front, key)] == keys[first_position(front, key)]);
    } else {
        let i = choose|i: int| 0 <= i < keys.len() && keys[i] == key;
        if i < front.len() {
            assert(front[i] == key);
        }
        assert forall|j: int| 0 <= j < keys.len() - 1 implies keys[j] != key by {
            assert(front[j] == keys[j]);
        }
    }
}

/// The distinct categories stand in the order of their first positions.
pub proof fn lemma_distinct_order(keys: Seq<Seq<char>>, a: int, b: int)
    requires
        0 <= a < b < distinct(keys).len(),
    ensures
        first_position(keys, distinct(keys)[a]) < first_position(keys, distinct(keys)[b]),
    decreases keys.len(),
{
    let front = keys.drop_last();
    let d = distinct(front);
    let last = keys.last();
    assert(d.contains(d[a]));
    lemma_distinct_contains(front, d[a]);
    if b < d.len() {
        assert(d.contains(d[b]));
        lemma_distinct_contains(front, d[b]);
        lemma_distinct_order(front, a, b);
    } else {
        lemma_distinct_contains(front, last);
        lemma_first_position(front, d[a]);
    }
}

/// Replacing an entry changes the sum by the difference of the counts.
pub proof fn lemma_view_sum_update(
    entries: Seq<(Seq<char>, nat)>,
    at: int,
    entry: (Seq<char>, nat),
)
    requires
        0 <= at < entries.len(),
    ensures
        view_sum(entries.update(at, entry)) == view_sum(entries) - entries[at].1 + entry.1,
    decreases entries.len(),
{
    let updated = entries.update(at, entry);
    if at == entries.len() - 1 {
        assert(updated.drop_last() =~= entries.drop_last());
    } else {
        assert(updated.drop_last() =~= entries.drop_last().update(at, entry));
        lemma_view_sum_update(entries.drop_last(), at, entry);
    }
}

/// The counts of the categories sum to the number of keys.
pub proof fn lemma_groups_sum(keys: Seq<Seq<char>>)
    ensures
        view_sum(spec_groups(keys)) == keys.len(),
    decreases keys.len(),
{
    if keys.len() > 0 {
        let front = keys.drop_last();
        let last = keys.last();
        lemma_groups_sum(front);
        let d = distinct(front);
        let g = spec_groups(front);
        let g2 = spec_groups(keys);
        assert(front.push(last) =~= keys);
        assert forall|i: int| 0 <= i < d.len() implies occurrences(keys, #[trigger] d[i])
            == occurrences(front, d[i]) + if last == d[i] {
            1nat
        } else {
            0nat
        } by {
            lemma_occurrences_push(front, last, d[i]);
        }
        lemma_distinct_no_duplicates(front);
        lemma_distinct_contains(front, last);
        lemma_occurrences_positive(front, last);
        lemma_occurrences_push(front, last, last);
        if d.contains(last) {
            let j = choose|j: int| 0 <= j < d.len() && d[j] == last;
            assert(g2 =~= g.update(j, (last, g[j].1 + 1)));
            lemma_view_sum_update(g, j, (last, g[j].1 + 1));
        } else {
            assert(g2 =~= g.push((last, 1nat)));
            lemma_view_sum_push(g, (last, 1nat));
        }
    } else {
        assert(spec_groups(keys) =~= Seq::<(Seq<char>, nat)>::empty());
    }
}

/// The entries before the place of a count have at least that count, and
/// those from the place on have less, in a sequence of falling counts.
pub proof fn lemma_place_splits(entries: Seq<(Seq<char>, nat)>, count: nat)
    requires
        forall|i: int, j: int| 0 <= i < j < entries.len() ==> entries[i].1 >= entries[j].1,
    ensures
        0 <= place(entries, count) <= entries.len(),
        forall|i: int| 0 <= i < place(entries, count) ==> entries[i].1 >= count,
        forall|i: int| place(entries, count) <= i < entries.len() ==> entries[i].1 < count,
    decreases entries.len(),
{
    if entries.len() > 0 {
        let front = entries.drop_last();
        assert forall|i: int, j: int| 0 <= i < j < front.len() implies front[i].1
            >= front[j].1 by {
            assert(front[i] == entries[i] && front[j] == entries[j]);
        }
        lemma_place_splits(front, count);
        if entries.last().1 >= count {
            assert forall|i: int| 0 <= i < entries.len() implies entries[i].1 >= count by {
                if i < entries.len() - 1 {
                    assert(entries[i].1 >= entries[entries.len() - 1].1);
                }
            }
        } else {
            assert forall|i: int| 0 <= i < place(entries, count) implies entries[i].1
                >= count by {
                assert(front[i] == entries[i]);
            }
            assert forall|i: int| place(entries, count) <= i < entries.len() implies entries[i].1
                < count by {
                if i < front.len() {
                    assert(front[i] == entries[i]);
                }
            }
        }
    }
}

/// What holds of the ranking of the first `m` groups: it lists exactly
/// those groups, in ranking order.
pub open spec fn ranks_prefix(keys: Seq<Seq<char>>, m: int) -> bool {
    let g = spec_groups(keys);
    let r = ranked(g.take(m));
    &&& r.len() == m
    &&& forall|i: int| 0 <= i < m ==> g.take(m).contains(#[trigger] r[i])
    &&& forall|a: int| 0 <= a < m ==> r.contains(#[trigger] g[a])
    &&& forall|i: int, j: int| 0 <= i < j < m ==> ranks_before(keys, #[trigger] r[i], #[trigger] r[j])
}

/// An entry is in a sequence with one entry inserted exactly when it is
/// the inserted entry or was there before.
pub proof fn lemma_insert_contains(
    entries: Seq<(Seq<char>, nat)>,
    at: int,
    added: (Seq<char>, nat),
    entry: (Seq<char>, nat),
)
    requires
        0 <= at <= entries.len(),
    ensures
        entries.insert(at, added).contains(entry) <==> entries.contains(entry) || entry == added,
{
    let after = entries.insert(at, added);
    entries.insert_ensures(at, added);
    if entries.contains(entry) {
        let i = choose|i: int| 0 <= i < entries.len() && entries[i] == entry;
        if i < at {
            assert(after[i] == entry);
        } else {
            assert(after[i + 1] == entry);
        }
    }
    if entry == added {
        assert(after[at] == entry);
    }
    if after.contains(entry) {
        let i = choose|i: int| 0 <= i < after.len() && after[i] == entry;
        if i < at {
            assert(entries[i] == entry);
        } else if i > at {
            assert(after[(i - 1) + 1] == entries[i - 1]);
            assert(entries[i - 1] == entry);
        }
    }
}

/// Inserting an entry behind those that rank before it and ahead of those
/// that it ranks before keeps a sequence in ranking order.
pub proof fn lemma_insert_keeps_order(
    keys: Seq<Seq<char>>,
    entries: Seq<(Seq<char>, nat)>,
    at: int,
    added: (Seq<char>, nat),
)
    requires
        0 <= at <= entries.len(),
        forall|i: int, j: int|
            0 <= i < j < entries.len() ==> ranks_before(
                keys,
                #[trigger] entries[i],
                #[trigger] entries[j],
            ),
        forall|i: int| 0 <= i < at ==> ranks_before(keys, #[trigger] entries[i], added),
        forall|i: int| at <= i < entries.len() ==> ranks_before(keys, added, #[trigger] entries[i]),
    ensures
        forall|i: int, j: int|
            0 <= i < j < entries.len() + 1 ==> ranks_before(
                keys,
                #[trigger] entries.insert(at, added)[i],
                #[trigger] entries.insert(at, added)[j],
            ),
{
    let after = entries.insert(at, added);
    entries.insert_ensures(at, added);
    assert forall|i: int, j: int| 0 <= i < j < entries.len() + 1 implies ranks_before(
        keys,
        #[trigger] after[i],
        #[trigger] after[j],
    ) by {
        let i0 = if i < at {
            i
        } else {
            i - 1
        };
        let j0 = if j < at {
            j
        } else {
            j - 1
        };
        if i != at {
            assert(after[i] == entries[i0]) by {
                if i > at {
                    assert(after[(i - 1) + 1] == entries[i - 1]);
                }
            }
        }
        if j != at {
            assert(after[j] == entries[j0]) by {
                if j > at {
                    assert(after[(j - 1) + 1] == entries[j - 1]);
                }
            }
        }
        if i == at {
            assert(ranks_before(keys, added, entries[j0]));
        } else if j == at {
            assert(ranks_before(keys, entries[i0], added));
        } else {
            assert(ranks_before(keys, entries[i0], entries[j0]));
        }
    }
}

/// An entry of the ranking of the first groups ranks before a later group
/// when it has at least as many records.
proof fn lemma_earlier_group_ranks_before(keys: Seq<Seq<char>>, m: int, entry: (Seq<char>, nat))
    requires
        0 <= m < spec_groups(keys).len(),
        spec_groups(keys).take(m).contains(entry),
        entry.1 >= spec_groups(keys)[m].1,
    ensures
        ranks_before(keys, entry, spec_groups(keys)[m]),
{
    let g = spec_groups(keys);
    let before = g.take(m);
    let a = choose|a: int| 0 <= a < before.len() && before[a] == entry;
    assert(before[a] == g[a]);
    lemma_distinct_order(keys, a, m);
}

/// The ranking of any number of leading groups lists exactly those groups,
/// in ranking order.
pub proof fn lemma_ranks_prefix(keys: Seq<Seq<char>>, m: int)
    requires
        0 <= m <= spec_groups(keys).len(),
    ensures
        ranks_prefix(keys, m),
    decreases m,
{
    let g = spec_groups(keys);
    if m == 0 {
        assert(g.take(0) =~= Seq::<(Seq<char>, nat)>::empty());
    } else {
        lemma_ranks_prefix(keys, m - 1);
        let before = g.take(m - 1);
        let r = ranked(before);
        let x = g[m - 1];
        let p = place(r, x.1);
        assert(g.take(m).drop_last() =~= before);
        assert(g.take(m).last() == x);
        let r2 = ranked(g.take(m));
        assert(r2 == r.insert(p, x));
        assert forall|i: int, j: int| 0 <= i < j < r.len() implies r[i].1 >= r[j].1 by {
            assert(ranks_before(keys, r[i], r[j]));
        }
        lemma_place_splits(r, x.1);
        r.insert_ensures(p, x);
        assert forall|i: int| 0 <= i < p implies ranks_before(keys, #[trigger] r[i], x) by {
            lemma_earlier_group_ranks_before(keys, m - 1, r[i]);
        }
        lemma_insert_keeps_order(keys, r, p, x);
        assert forall|i: int| 0 <= i < m implies g.take(m).contains(#[trigger] r2[i]) by {
            lemma_insert_contains(r, p, x, r2[i]);
            assert(r2.contains(r2[i]));
            if r2[i] == x {
                assert(g.take(m)[m - 1] == x);
            } else {
                assert(before.contains(r2[i]));
                let a = choose|a: int| 0 <= a < before.len() && before[a] == r2[i];
                assert(g.take(m)[a] == r2[i]);
            }
        }
        assert forall|a: int| 0 <= a < m implies r2.contains(#[trigger] g[a]) by {
            lemma_insert_contains(r, p, x, g[a]);
        }
    }
}

/// The ranking lists every category among the keys exactly once, each with
/// the number of its records, and none that is not among them.
pub proof fn lemma_ranking_members(keys: Seq<Seq<char>>)
    ensures
        spec_ranking(keys).len() == distinct(keys).len(),
        forall|i: int|
            0 <= i < spec_ranking(keys).len() ==> keys.contains((#[trigger] spec_ranking(keys)[i]).0)
                && spec_ranking(keys)[i].1 == occurrences(keys, spec_ranking(keys)[i].0)
                && spec_ranking(keys)[i].1 > 0,
        forall|i: int, j: int|
            0 <= i < j < spec_ranking(keys).len() ==> (#[trigger] spec_ranking(keys)[i]).0
                != (#[trigger] spec_ranking(keys)[j]).0,
        forall|key: Seq<char>|
            keys.contains(key) ==> spec_ranking(keys).contains(
                (key, #[trigger] occurrences(keys, key)),
            ),
{
    let g = spec_groups(keys);
    let d = distinct(keys);
    let r = spec_ranking(keys);
    let m = g.len() as int;
    lemma_ranks_prefix(keys, m);
    assert(g.take(m) =~= g);
    lemma_distinct_no_duplicates(keys);
    assert forall|i: int| 0 <= i < r.len() implies keys.contains((#[trigger] r[i]).0) && r[i].1
        == occurrences(keys, r[i].0) && r[i].1 > 0 by {
        assert(g.contains(r[i]));
        let a = choose|a: int| 0 <= a < g.len() && g[a] == r[i];
        assert(d.contains(d[a]));
        lemma_distinct_contains(keys, d[a]);
        lemma_occurrences_positive(keys, d[a]);
    }
    assert forall|i: int, j: int| 0 <= i < j < r.len() implies (#[trigger] r[i]).0
        != (#[trigger] r[j]).0 by {
        assert(ranks_before(keys, r[i], r[j]));
    }
    assert forall|key: Seq<char>| keys.contains(key) implies r.contains(
        (key, #[trigger] occurrences(keys, key)),
    ) by {
        lemma_distinct_contains(keys, key);
        let a = choose|a: int| 0 <= a < d.len() && d[a] == key;
        assert(g[a] == (key, occurrences(keys, key)));
        assert(r.contains(g[a]));
    }
}

/// Ranking order: of two entries of the ranking the earlier has more
/// records, or as many and a category that is met first among the keys.
pub proof fn lemma_ranking_order(keys: Seq<Seq<char>>, i: int, j: int)
    requires
        0 <= i < j < spec_ranking(keys).len(),
    ensures
        ranks_before(keys, spec_ranking(keys)[i], spec_ranking(keys)[j]),
{
    let g = spec_groups(keys);
    let m = g.len() as int;
    lemma_ranks_prefix(keys, m);
    assert(g.take(m) =~= g);
}

/// Total conservation: the values of a dataset counted by category sum to
/// the number of keys, whatever the cap.
pub proof fn lemma_total_conservation(keys: Seq<Seq<char>>, cap: int)
    requires
        0 <= cap,
    ensures
        view_sum(spec_category_dataset(keys, cap)) == keys.len(),
{
    let r = spec_ranking(keys);
    lemma_groups_sum(keys);
    lemma_ranked_keeps_sum(spec_groups(keys));
    if r.len() > cap {
        lemma_view_sum_split(r, cap);
        lemma_view_sum_push(r.take(cap), (other_label(), view_sum(r.skip(cap))));
    }
}

/// The folded bucket: when there are more categories than the cap and none
/// of them is itself called `Other`, the dataset has one bucket more than
/// the cap; the buckets before the last are the first entries of the
/// ranking and none of them is labelled `Other`; the last is labelled
/// `Other` and its value is the sum of the counts of all categories behind
/// the cap, which is the number of keys less the counts of the kept ones.
pub proof fn lemma_other_bucket(keys: Seq<Seq<char>>, cap: int)
    requires
        0 <= cap < distinct(keys).len(),
        !keys.contains(other_label()),
    ensures
        spec_category_dataset(keys, cap).len() == cap + 1,
        forall|i: int|
            0 <= i < cap ==> #[trigger] spec_category_dataset(keys, cap)[i] == spec_ranking(
                keys,
            )[i] && spec_category_dataset(keys, cap)[i].0 != other_label(),
        spec_category_dataset(keys, cap)[cap].0 == other_label(),
        spec_category_dataset(keys, cap)[cap].1 == view_sum(spec_ranking(keys).skip(cap)),
        spec_category_dataset(keys, cap)[cap].1 == keys.len() - view_sum(
            spec_ranking(keys).take(cap),
        ),
{
    let r = spec_ranking(keys);
    lemma_ranking_members(keys);
    lemma_groups_sum(keys);
    lemma_ranked_keeps_sum(spec_groups(keys));
    lemma_view_sum_split(r, cap);
}

} // verus!
