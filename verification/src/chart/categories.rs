//! Counting records by category and keeping the most frequent categories.
//!
//! Categories are told apart by their exact text. The ranking lists each
//! category once with the number of its records, most frequent first;
//! categories with equally many records keep the order in which they were
//! first met. When there are more categories than the cap allows, those
//! behind the cap are folded into one bucket that is appended last.

use vstd::prelude::*;
use vstd::string::*;
use crate::chart::dataset::{
    Bucket, ChartDataset, MAX_TOTAL, bucket_sum, bucket_views, count_sum, lemma_bucket_sum_push,
    lemma_bucket_sum_step, lemma_bucket_sum_take, lemma_count_sum_push, lemma_count_sum_step,
    lemma_count_sum_update,
};

verus! {

/// The default number of categories that keep a bucket of their own.
pub const DEFAULT_CATEGORY_CAP: usize = 10;

/// The label of the bucket that takes the folded categories.
pub open spec fn other_label() -> Seq<char> {
    "Other"@
}

/// The texts of `keys`, in order.
pub open spec fn string_views(keys: Seq<String>) -> Seq<Seq<char>> {
    keys.map_values(|s: String| s@)
}

/// The test for being the category `key`.
pub open spec fn same_as(key: Seq<char>) -> spec_fn(Seq<char>) -> bool {
    |k: Seq<char>| k == key
}

/// The number of times `key` occurs among `keys`.
pub open spec fn occurrences(keys: Seq<Seq<char>>, key: Seq<char>) -> nat {
    keys.filter(same_as(key)).len()
}

/// The categories among `keys`, each once, in the order in which they are
/// first met.
pub open spec fn distinct(keys: Seq<Seq<char>>) -> Seq<Seq<char>>
    decreases keys.len(),
{
    if keys.len() == 0 {
        Seq::empty()
    } else {
        let front = distinct(keys.drop_last());
        if front.contains(keys.last()) {
            front
        } else {
            front.push(keys.last())
        }
    }
}

/// Each category among `keys` with the number of its records, in the order
/// in which the categories are first met.
pub open spec fn spec_groups(keys: Seq<Seq<char>>) -> Seq<(Seq<char>, nat)> {
    Seq::new(
        distinct(keys).len(),
        |i: int| (distinct(keys)[i], occurrences(keys, distinct(keys)[i])),
    )
}

/// The place at which an entry with `count` records joins `ranked`: behind
/// the last entry that has at least as many.
pub open spec fn place(ranked: Seq<(Seq<char>, nat)>, count: nat) -> int
    decreases ranked.len(),
{
    if ranked.len() == 0 {
        0
    } else if ranked.last().1 >= count {
        ranked.len() as int
    } else {
        place(ranked.drop_last(), count)
    }
}

/// The entries of `groups` by falling count, entries with equal counts in
/// the order they have in `groups`.
pub open spec fn ranked(groups: Seq<(Seq<char>, nat)>) -> Seq<(Seq<char>, nat)>
    decreases groups.len(),
{
    if groups.len() == 0 {
        Seq::empty()
    } else {
        let front = ranked(groups.drop_last());
        front.insert(place(front, groups.last().1), groups.last())
    }
}

/// The ranking of the categories among `keys`.
pub open spec fn spec_ranking(keys: Seq<Seq<char>>) -> Seq<(Seq<char>, nat)> {
    ranked(spec_groups(keys))
}

/// The sum of the counts of `entries`.
pub open spec fn view_sum(entries: Seq<(Seq<char>, nat)>) -> nat
    decreases entries.len(),
{
    if entries.len() == 0 {
        0
    } else {
        view_sum(entries.drop_last()) + entries.last().1
    }
}

/// `ranking` with the entries behind the first `cap` folded into one entry
/// that is appended last; `ranking` itself when it has at most `cap`
/// entries.
pub open spec fn spec_fold_top(ranking: Seq<(Seq<char>, nat)>, cap: int) -> Seq<(Seq<char>, nat)> {
    if ranking.len() <= cap {
        ranking
    } else {
        ranking.take(cap).push((other_label(), view_sum(ranking.skip(cap))))
    }
}

/// The dataset of `keys` counted by category with at most `cap` categories
/// kept.
pub open spec fn spec_category_dataset(keys: Seq<Seq<char>>, cap: int) -> Seq<(Seq<char>, nat)> {
    spec_fold_top(spec_ranking(keys), cap)
}

/// A category is among the distinct ones exactly when it is among the keys.
pub proof fn lemma_distinct_contains(keys: Seq<Seq<char>>, key: Seq<char>)
    ensures
        distinct(keys).contains(key) <==> keys.contains(key),
    decreases keys.len(),
{
    if keys.len() > 0 {
        let front = keys.drop_last();
        lemma_distinct_contains(front, key);
        lemma_distinct_contains(front, keys.last());
        let d = distinct(front);
        if keys.contains(key) {
            let i = choose|i: int| 0 <= i < keys.len() && keys[i] == key;
            if i < front.len() {
                assert(front[i] == key);
                assert(d.contains(key));
                let j = choose|j: int| 0 <= j < d.len() && d[j] == key;
                if !d.contains(keys.last()) {
                    assert(d.push(keys.last())[j] == key);
                }
            } else {
                if !d.contains(keys.last()) {
                    assert(d.push(keys.last())[d.len() as int] == key);
                }
            }
        }
        if distinct(keys).contains(key) {
            let j = choose|j: int| 0 <= j < distinct(keys).len() && distinct(keys)[j] == key;
            if j < d.len() {
                assert(d[j] == key);
                let i = choose|i: int| 0 <= i < front.len() && front[i] == key;
                assert(keys[i] == key);
            } else {
                assert(keys[keys.len() - 1] == key);
            }
        }
    }
}

/// No category is listed twice among the distinct ones.
pub proof fn lemma_distinct_no_duplicates(keys: Seq<Seq<char>>)
    ensures
        distinct(keys).no_duplicates(),
    decreases keys.len(),
{
    if keys.len() > 0 {
        lemma_distinct_no_duplicates(keys.drop_last());
    }
}

/// One more key raises the number of its occurrences by one and leaves the
/// others.
pub proof fn lemma_occurrences_push(keys: Seq<Seq<char>>, added: Seq<char>, key: Seq<char>)
    ensures
        occurrences(keys.push(added), key) == occurrences(keys, key) + if added == key {
            1nat
        } else {
            0nat
        },
{
    keys.lemma_filter_push(added, same_as(key));
}

/// A category occurs at least once exactly when it is among the keys.
pub proof fn lemma_occurrences_positive(keys: Seq<Seq<char>>, key: Seq<char>)
    ensures
        occurrences(keys, key) > 0 <==> keys.contains(key),
        occurrences(keys, key) <= keys.len(),
    decreases keys.len(),
{
    reveal(Seq::filter);
    keys.lemma_filter_len(same_as(key));
    if keys.len() > 0 {
        let front = keys.drop_last();
        lemma_occurrences_positive(front, key);
        assert(front.push(keys.last()) =~= keys);
        lemma_occurrences_push(front, keys.last(), key);
        if keys.contains(key) {
            let i = choose|i: int| 0 <= i < keys.len() && keys[i] == key;
            if i < front.len() {
                assert(front[i] == key);
            }
        }
        if front.contains(key) {
            let i = choose|i: int| 0 <= i < front.len() && front[i] == key;
            assert(keys[i] == key);
        }
        if keys.last() == key {
            assert(keys[keys.len() - 1] == key);
        }
    }
}

/// The place of a count lies within the sequence.
pub proof fn lemma_place_bounds(entries: Seq<(Seq<char>, nat)>, count: nat)
    ensures
        0 <= place(entries, count) <= entries.len(),
    decreases entries.len(),
{
    if entries.len() > 0 {
        lemma_place_bounds(entries.drop_last(), count);
    }
}

/// Adding an entry adds its count to the sum.
pub proof fn lemma_view_sum_push(entries: Seq<(Seq<char>, nat)>, entry: (Seq<char>, nat))
    ensures
        view_sum(entries.push(entry)) == view_sum(entries) + entry.1,
{
    assert(entries.push(entry).drop_last() =~= entries);
}

/// Inserting an entry anywhere adds its count to the sum.
pub proof fn lemma_view_sum_insert(
    entries: Seq<(Seq<char>, nat)>,
    at: int,
    entry: (Seq<char>, nat),
)
    requires
        0 <= at <= entries.len(),
    ensures
        view_sum(entries.insert(at, entry)) == view_sum(entries) + entry.1,
    decreases entries.len(),
{
    if at == entries.len() {
        assert(entries.insert(at, entry) =~= entries.push(entry));
        lemma_view_sum_push(entries, entry);
    } else {
        assert(entries.insert(at, entry).drop_last() =~= entries.drop_last().insert(at, entry));
        assert(entries.insert(at, entry).last() == entries.last());
        lemma_view_sum_insert(entries.drop_last(), at, entry);
    }
}

/// The counts before and behind a cut sum to the whole.
pub proof fn lemma_view_sum_split(entries: Seq<(Seq<char>, nat)>, cut: int)
    requires
        0 <= cut <= entries.len(),
    ensures
        view_sum(entries.take(cut)) + view_sum(entries.skip(cut)) == view_sum(entries),
    decreases entries.len(),
{
    if cut == entries.len() {
        assert(entries.take(cut) =~= entries);
        assert(entries.skip(cut) =~= Seq::<(Seq<char>, nat)>::empty());
    } else {
        let front = entries.drop_last();
        lemma_view_sum_split(front, cut);
        assert(front.take(cut) =~= entries.take(cut));
        assert(entries.skip(cut).drop_last() =~= front.skip(cut));
        assert(entries.skip(cut).last() == entries.last());
    }
}

/// The values of buckets sum to what their views sum to.
pub proof fn lemma_bucket_sum_is_view_sum(buckets: Seq<Bucket>)
    ensures
        bucket_sum(buckets) == view_sum(bucket_views(buckets)),
    decreases buckets.len(),
{
    if buckets.len() > 0 {
        lemma_bucket_sum_is_view_sum(buckets.drop_last());
        assert(bucket_views(buckets).drop_last() =~= bucket_views(buckets.drop_last()));
    }
}

/// Ranking keeps the sum of the counts.
pub proof fn lemma_ranked_keeps_sum(groups: Seq<(Seq<char>, nat)>)
    ensures
        view_sum(ranked(groups)) == view_sum(groups),
        ranked(groups).len() == groups.len(),
    decreases groups.len(),
{
    if groups.len() > 0 {
        let front = ranked(groups.drop_last());
        lemma_ranked_keeps_sum(groups.drop_last());
        lemma_place_bounds(front, groups.last().1);
        lemma_view_sum_insert(front, place(front, groups.last().1), groups.last());
    }
}

/// The position of `key` among `labels`, if it is there.
fn find_label(labels: &Vec<String>, key: &String) -> (found: Option<usize>)
    ensures
        found matches Some(i) ==> i < labels@.len() && labels@[i as int]@ == key@,
        found is None ==> !string_views(labels@).contains(key@),
{
    let mut i: usize = 0;
    while i < labels.len()
        invariant
            i <= labels@.len(),
            forall|j: int| 0 <= j < i ==> (#[trigger] labels@[j])@ != key@,
        decreases labels.len() - i,
    {
        if labels[i] == *key {
            return Some(i);
        }
        i = i + 1;
    }
    proof {
        let views = string_views(labels@);
        assert forall|j: int| 0 <= j < views.len() implies views[j] != key@ by {
            assert(views[j] == labels@[j]@);
        }
    }
    None
}

/// Counts `keys` by category. The buckets list each category once with the
/// number of its records, in the order in which the categories are first
/// met.
pub fn count_categories(keys: &Vec<String>) -> (groups: Vec<Bucket>)
    requires
        keys@.len() <= MAX_TOTAL,
    ensures
        bucket_views(groups@) == spec_groups(string_views(keys@)),
        bucket_sum(groups@) == keys@.len(),
{
    let ghost all = string_views(keys@);
    let mut labels: Vec<String> = Vec::new();
    let mut counts: Vec<u64> = Vec::new();
    let mut k: usize = 0;
    proof {
        assert(all.take(0) =~= Seq::<Seq<char>>::empty());
        assert(string_views(labels@) =~= distinct(all.take(0)));
    }
    while k < keys.len()
        invariant
            k <= keys@.len(),
            keys@.len() <= MAX_TOTAL,
            all == string_views(keys@),
            counts@.len() == labels@.len(),
            string_views(labels@) == distinct(all.take(k as int)),
            forall|j: int|
                0 <= j < labels@.len() ==> #[trigger] counts@[j] as nat == occurrences(
                    all.take(k as int),
                    labels@[j]@,
                ),
            count_sum(counts@) == k,
        decreases keys.len() - k,
    {
        let key = &keys[k];
        let ghost seen = all.take(k as int);
        let ghost next = all.take(k as int + 1);
        proof {
            assert(next.drop_last() =~= seen);
            assert(next =~= seen.push(key@));
            assert(next.last() == key@);
            lemma_distinct_contains(seen, key@);
            lemma_distinct_no_duplicates(seen);
            lemma_occurrences_positive(seen, key@);
            lemma_occurrences_positive(next, key@);
            assert forall|j: int| 0 <= j < labels@.len() implies occurrences(next, labels@[j]@)
                == occurrences(seen, labels@[j]@) + if key@ == #[trigger] labels@[j]@ {
                1nat
            } else {
                0nat
            } by {
                lemma_occurrences_push(seen, key@, labels@[j]@);
            }
            lemma_occurrences_push(seen, key@, key@);
        }
        match find_label(&labels, key) {
            Some(j) => {
                let count = counts[j];
                proof {
                    assert(string_views(labels@)[j as int] == key@);
                    assert(distinct(seen).contains(key@));
                    lemma_count_sum_update(counts@, j as int, (count + 1) as u64);
                    assert forall|i: int| 0 <= i < labels@.len() && i != j implies labels@[i]@
                        != key@ by {
                        assert(string_views(labels@)[i] == labels@[i]@);
                    }
                }
                counts.set(j, count + 1);
            },
            None => {
                proof {
                    lemma_count_sum_push(counts@, 1);
                    assert(string_views(labels@.push(*key)) =~= string_views(labels@).push(key@));
                    assert forall|i: int| 0 <= i < labels@.len() implies labels@[i]@ != key@ by {
                        assert(string_views(labels@)[i] == labels@[i]@);
                    }
                }
                labels.push(key.clone());
                counts.push(1);
            },
        }
        k = k + 1;
    }
    proof {
        assert(all.take(k as int) =~= all);
    }
    let mut groups: Vec<Bucket> = Vec::new();
    let mut i: usize = 0;
    proof {
        lemma_count_sum_step(counts@, 0);
    }
    while i < labels.len()
        invariant
            i <= labels@.len(),
            counts@.len() == labels@.len(),
            groups@.len() == i,
            forall|j: int|
                0 <= j < i ==> (#[trigger] groups@[j])@ == (labels@[j]@, counts@[j] as nat),
            bucket_sum(groups@) == count_sum(counts@.take(i as int)),
        decreases labels.len() - i,
    {
        proof {
            lemma_count_sum_step(counts@, i as int);
        }
        let bucket = Bucket { label: labels[i].clone(), value: counts[i] };
        proof {
            lemma_bucket_sum_push(groups@, bucket);
        }
        groups.push(bucket);
        i = i + 1;
    }
    proof {
        lemma_count_sum_step(counts@, 0);
        assert forall|j: int| 0 <= j < labels@.len() implies labels@[j]@ == #[trigger] distinct(
            all,
        )[j] by {
            assert(string_views(labels@)[j] == labels@[j]@);
        }
        assert(bucket_views(groups@) =~= spec_groups(all));
    }
    groups
}

/// The place at which a bucket with `count` records joins `ranking`.
fn find_place(ranking: &Vec<Bucket>, count: u64) -> (p: usize)
    ensures
        p as int == place(bucket_views(ranking@), count as nat),
        p <= ranking@.len(),
{
    let ghost views = bucket_views(ranking@);
    let mut p: usize = ranking.len();
    proof {
        assert(views.take(p as int) =~= views);
    }
    while p > 0 && ranking[p - 1].value < count
        invariant
            p <= ranking@.len(),
            views == bucket_views(ranking@),
            place(views, count as nat) == place(views.take(p as int), count as nat),
        decreases p,
    {
        proof {
            assert(views.take(p as int).drop_last() =~= views.take(p as int - 1));
            assert(views.take(p as int).last() == ranking@[p as int - 1]@);
        }
        p = p - 1;
    }
    proof {
        if p > 0 {
            assert(views.take(p as int).last() == ranking@[p as int - 1]@);
        }
    }
    p
}

/// Orders `groups` by falling count; buckets with equal counts keep the
/// order they have in `groups`.
pub fn rank_groups(groups: &Vec<Bucket>) -> (ranking: Vec<Bucket>)
    ensures
        bucket_views(ranking@) == ranked(bucket_views(groups@)),
        bucket_sum(ranking@) == bucket_sum(groups@),
        ranking@.len() == groups@.len(),
{
    let ghost views = bucket_views(groups@);
    let mut ranking: Vec<Bucket> = Vec::new();
    let mut i: usize = 0;
    proof {
        assert(views.take(0) =~= Seq::<(Seq<char>, nat)>::empty());
        assert(bucket_views(ranking@) =~= ranked(views.take(0)));
    }
    while i < groups.len()
        invariant
            i <= groups@.len(),
            views == bucket_views(groups@),
            bucket_views(ranking@) == ranked(views.take(i as int)),
        decreases groups.len() - i,
    {
        let bucket = groups[i].clone();
        let p = find_place(&ranking, bucket.value);
        proof {
            assert(views.take(i as int + 1).drop_last() =~= views.take(i as int));
            assert(views.take(i as int + 1).last() == bucket@);
            assert(bucket_views(ranking@.insert(p as int, bucket)) =~= bucket_views(
                ranking@,
            ).insert(p as int, bucket@));
        }
        ranking.insert(p, bucket);
        i = i + 1;
    }
    proof {
        assert(views.take(i as int) =~= views);
        lemma_ranked_keeps_sum(views);
        lemma_bucket_sum_is_view_sum(groups@);
        lemma_bucket_sum_is_view_sum(ranking@);
    }
    ranking
}

/// Ranks the categories among `keys`: each category once with the number of
/// its records, most frequent first, equally frequent ones in the order in
/// which they are first met.
pub fn rank_categories(keys: &Vec<String>) -> (ranking: Vec<Bucket>)
    requires
        keys@.len() <= MAX_TOTAL,
    ensures
        bucket_views(ranking@) == spec_ranking(string_views(keys@)),
        bucket_sum(ranking@) == keys@.len(),
{
    let groups = count_categories(keys);
    rank_groups(&groups)
}

/// The sum of the values of the buckets from `from` up to `to`.
fn sum_between(buckets: &Vec<Bucket>, from: usize, to: usize) -> (sum: u64)
    requires
        from <= to <= buckets@.len(),
        bucket_sum(buckets@) <= MAX_TOTAL,
    ensures
        sum as nat == bucket_sum(buckets@.take(to as int)) - bucket_sum(buckets@.take(from as int)),
{
    let mut sum: u64 = 0;
    let mut i: usize = from;
    while i < to
        invariant
            from <= i <= to <= buckets@.len(),
            bucket_sum(buckets@) <= MAX_TOTAL,
            sum as nat == bucket_sum(buckets@.take(i as int)) - bucket_sum(
                buckets@.take(from as int),
            ),
        decreases to - i,
    {
        proof {
            lemma_bucket_sum_step(buckets@, i as int);
            lemma_bucket_sum_take(buckets@, from as int, i as int + 1);
        }
        sum = sum + buckets[i].value;
        i = i + 1;
    }
    sum
}

/// Keeps the first `cap` buckets of `ranking` and folds the others into one
/// bucket labelled `Other`, appended last, whose value is the sum of theirs.
/// A ranking of at most `cap` buckets is kept as it is.
pub fn fold_top(ranking: Vec<Bucket>, cap: usize) -> (ds: ChartDataset)
    requires
        bucket_sum(ranking@) <= MAX_TOTAL,
    ensures
        ds.well_formed(),
        ds@ == spec_fold_top(bucket_views(ranking@), cap as int),
        ds.total as nat == bucket_sum(ranking@),
{
    let n = ranking.len();
    proof {
        lemma_bucket_sum_take(ranking@, 0, 0);
    }
    let total = sum_between(&ranking, 0, n);
    if n <= cap {
        return ChartDataset { buckets: ranking, total };
    }
    let other = sum_between(&ranking, cap, n);
    let ghost whole = ranking@;
    let mut buckets = ranking;
    buckets.truncate(cap);
    let folded = Bucket { label: "Other".to_owned(), value: other };
    proof {
        let views = bucket_views(whole);
        assert(buckets@ =~= whole.take(cap as int));
        lemma_bucket_sum_push(buckets@, folded);
        lemma_bucket_sum_is_view_sum(whole);
        lemma_bucket_sum_is_view_sum(whole.take(cap as int));
        lemma_view_sum_split(views, cap as int);
        assert(bucket_views(whole.take(cap as int)) =~= views.take(cap as int));
        assert(bucket_views(buckets@.push(folded)) =~= views.take(cap as int).push(folded@));
    }
    buckets.push(folded);
    ChartDataset { buckets, total }
}

/// Counts `keys` by category. The dataset lists the categories by falling
/// count, equally frequent ones in the order in which they are first met;
/// when there are more than `cap` categories, the first `cap` are kept and
/// the others are folded into one bucket labelled `Other`, appended last.
/// The total is the number of keys.
pub fn aggregate_categories(keys: &Vec<String>, cap: usize) -> (ds: ChartDataset)
    requires
        keys@.len() <= MAX_TOTAL,
    ensures
        ds.well_formed(),
        ds@ == spec_category_dataset(string_views(keys@), cap as int),
        ds.total == keys@.len(),
{
    let ranking = rank_categories(keys);
    fold_top(ranking, cap)
}

} // verus!
