//! Newest-first selection: the order in which rows leave the index.

use vstd::prelude::*;

verus! {

/// Row `i` leaves before row `j`: it carries the later instant, or the same instant and the
/// earlier place in the table. On the places of one table this is a strict total order.
pub open spec fn ranks_before(stamps: Seq<i64>, i: int, j: int) -> bool {
    stamps[i] > stamps[j] || (stamps[i] == stamps[j] && i < j)
}

/// Every selected row leaves before row `i`.
pub open spec fn after_all(stamps: Seq<i64>, picked: Seq<int>, i: int) -> bool {
    forall|k: int| 0 <= k < picked.len() ==> ranks_before(stamps, #[trigger] picked[k], i)
}

/// `picked` lists the places of the first `limit` eligible rows in leaving order: each place
/// is eligible, the places stand in strict leaving order, and an eligible row that was left
/// out leaves after every selected row, the selection being full.
pub open spec fn is_ranked_selection(
    stamps: Seq<i64>,
    eligible: Seq<bool>,
    limit: int,
    picked: Seq<int>,
) -> bool {
    &&& picked.len() <= limit
    &&& forall|k: int|
        0 <= k < picked.len() ==> 0 <= #[trigger] picked[k] < stamps.len() && eligible[picked[k]]
    &&& forall|k: int, l: int|
        0 <= k < l < picked.len() ==> ranks_before(stamps, #[trigger] picked[k], #[trigger] picked[l])
    &&& forall|i: int|
        0 <= i < stamps.len() && #[trigger] eligible[i] && !picked.contains(i) ==> picked.len()
            == limit && after_all(stamps, picked, i)
}

/// The places held in a vector of indices.
pub open spec fn places(v: Seq<usize>) -> Seq<int> {
    v.map_values(|x: usize| x as int)
}

/// Row `i` may still be selected after `picked`: nothing was selected yet, or the row leaves
/// after the last selected one.
pub open spec fn follows_last(stamps: Seq<i64>, picked: Seq<int>, i: int) -> bool {
    picked.len() == 0 || ranks_before(stamps, picked.last(), i)
}

/// A selection holds no place twice.
pub proof fn lemma_selection_is_distinct(
    stamps: Seq<i64>,
    eligible: Seq<bool>,
    limit: int,
    picked: Seq<int>,
)
    requires
        is_ranked_selection(stamps, eligible, limit, picked),
    ensures
        picked.no_duplicates(),
{
    assert forall|k: int, l: int| 0 <= k < picked.len() && 0 <= l < picked.len() && k != l implies picked[k]
        != picked[l] by {
        if k < l {
            assert(ranks_before(stamps, picked[k], picked[l]));
        } else {
            assert(ranks_before(stamps, picked[l], picked[k]));
        }
    }
}

/// Two selections from the same rows agree on their first `k` places.
proof fn lemma_selections_agree(
    stamps: Seq<i64>,
    eligible: Seq<bool>,
    limit: int,
    first: Seq<int>,
    second: Seq<int>,
    k: int,
)
    requires
        is_ranked_selection(stamps, eligible, limit, first),
        is_ranked_selection(stamps, eligible, limit, second),
        0 <= k <= first.len(),
        k <= second.len(),
    ensures
        forall|j: int| 0 <= j < k ==> first[j] == second[j],
    decreases k,
{
    if k > 0 {
        lemma_selections_agree(stamps, eligible, limit, first, second, k - 1);
        lemma_selection_is_distinct(stamps, eligible, limit, first);
        lemma_selection_is_distinct(stamps, eligible, limit, second);
        let x = first[k - 1];
        let y = second[k - 1];
        if x != y {
            if ranks_before(stamps, x, y) {
                if second.contains(x) {
                    let m = choose|m: int| 0 <= m < second.len() && second[m] == x;
                    if m < k - 1 {
                        assert(first[m] == second[m]);
                    } else if m > k - 1 {
                        assert(ranks_before(stamps, second[k - 1], second[m]));
                    }
                    assert(false);
                }
                assert(eligible[x]);
                assert(after_all(stamps, second, x));
                assert(ranks_before(stamps, second[k - 1], x));
            } else {
                assert(ranks_before(stamps, y, x));
                if first.contains(y) {
                    let m = choose|m: int| 0 <= m < first.len() && first[m] == y;
                    if m < k - 1 {
                        assert(first[m] == second[m]);
                    } else if m > k - 1 {
                        assert(ranks_before(stamps, first[k - 1], first[m]));
                    }
                    assert(false);
                }
                assert(eligible[y]);
                assert(after_all(stamps, first, y));
                assert(ranks_before(stamps, first[k - 1], y));
            }
            assert(false);
        }
    }
}

/// A selection is no longer than another selection from the same rows.
proof fn lemma_selection_is_no_longer(
    stamps: Seq<i64>,
    eligible: Seq<bool>,
    limit: int,
    first: Seq<int>,
    second: Seq<int>,
)
    requires
        is_ranked_selection(stamps, eligible, limit, first),
        is_ranked_selection(stamps, eligible, limit, second),
    ensures
        first.len() <= second.len(),
{
    if first.len() > second.len() {
        let n = second.len() as int;
        lemma_selections_agree(stamps, eligible, limit, first, second, n);
        lemma_selection_is_distinct(stamps, eligible, limit, first);
        let x = first[n];
        if second.contains(x) {
            let m = choose|m: int| 0 <= m < second.len() && second[m] == x;
            assert(first[m] == second[m]);
            assert(false);
        }
        assert(eligible[x]);
        assert(second.len() == limit);
    }
}

/// The rows, their eligibility and the limit determine the selection.
pub proof fn lemma_selection_is_unique(
    stamps: Seq<i64>,
    eligible: Seq<bool>,
    limit: int,
    first: Seq<int>,
    second: Seq<int>,
)
    requires
        is_ranked_selection(stamps, eligible, limit, first),
        is_ranked_selection(stamps, eligible, limit, second),
    ensures
        first == second,
{
    lemma_selection_is_no_longer(stamps, eligible, limit, first, second);
    lemma_selection_is_no_longer(stamps, eligible, limit, second, first);
    lemma_selections_agree(stamps, eligible, limit, first, second, first.len() as int);
    assert(first =~= second);
}

/// A selection with room for every row selects every eligible row.
pub proof fn lemma_roomy_selection_is_complete(
    stamps: Seq<i64>,
    eligible: Seq<bool>,
    limit: int,
    picked: Seq<int>,
)
    requires
        is_ranked_selection(stamps, eligible, limit, picked),
        limit >= stamps.len(),
        stamps.len() == eligible.len(),
    ensures
        forall|i: int| 0 <= i < stamps.len() && #[trigger] eligible[i] ==> picked.contains(i),
{
    let n = stamps.len() as int;
    lemma_selection_is_distinct(stamps, eligible, limit, picked);
    picked.unique_seq_to_set();
    vstd::set_lib::lemma_int_range(0, n);
    let all = vstd::set_lib::set_int_range(0, n);
    assert(picked.to_set().subset_of(all)) by {
        assert forall|x: int| picked.to_set().contains(x) implies all.contains(x) by {
            let k = choose|k: int| 0 <= k < picked.len() && picked[k] == x;
            assert(0 <= picked[k] < n);
        }
    }
    vstd::set_lib::lemma_len_subset(picked.to_set(), all);
    assert forall|i: int| 0 <= i < n && #[trigger] eligible[i] implies picked.contains(i) by {
        if !picked.contains(i) {
            assert(picked.len() == limit);
            vstd::set_lib::lemma_subset_equality(picked.to_set(), all);
            assert(all.contains(i));
            assert(picked.to_set().contains(i));
        }
    }
}

/// Selects, newest first, the places of up to `limit` eligible rows.
pub fn top_ranked(stamps: &Vec<i64>, eligible: &Vec<bool>, limit: usize) -> (picked: Vec<usize>)
    requires
        stamps.len() == eligible.len(),
    ensures
        is_ranked_selection(stamps@, eligible@, limit as int, places(picked@)),
{
    let mut picked: Vec<usize> = Vec::new();
    let n: usize = stamps.len();
    while picked.len() < limit
        invariant
            n == stamps.len(),
            n == eligible.len(),
            picked.len() <= limit,
            forall|k: int|
                0 <= k < picked.len() ==> 0 <= #[trigger] places(picked@)[k] < n
                    && eligible@[places(picked@)[k]],
            forall|k: int, l: int|
                0 <= k < l < picked.len() ==> ranks_before(
                    stamps@,
                    #[trigger] places(picked@)[k],
                    #[trigger] places(picked@)[l],
                ),
            forall|i: int|
                0 <= i < n && #[trigger] eligible@[i] && !places(picked@).contains(i)
                    ==> after_all(stamps@, places(picked@), i),
        decreases limit - picked.len(),
    {
        let ghost before = places(picked@);
        let mut best: Option<usize> = None;
        let mut j: usize = 0;
        while j < n
            invariant
                j <= n,
                n == stamps.len(),
                n == eligible.len(),
                before == places(picked@),
                forall|k: int| 0 <= k < before.len() ==> 0 <= #[trigger] before[k] < n,
                match best {
                    Some(b) => {
                        &&& b < j
                        &&& eligible@[b as int]
                        &&& follows_last(stamps@, before, b as int)
                        &&& forall|c: int|
                            0 <= c < j && #[trigger] eligible@[c] && follows_last(stamps@, before, c)
                                && c != b ==> ranks_before(stamps@, b as int, c)
                    },
                    None => forall|c: int|
                        0 <= c < j && #[trigger] eligible@[c] ==> !follows_last(stamps@, before, c),
                },
            decreases n - j,
        {
            let open = if picked.len() == 0 {
                true
            } else {
                let last: usize = picked[picked.len() - 1];
                assert(places(picked@)[picked.len() - 1] == last as int);
                stamps[last] > stamps[j] || (stamps[last] == stamps[j] && last < j)
            };
            if eligible[j] && open {
                match best {
                    None => {
                        best = Some(j);
                    },
                    Some(b) => {
                        if stamps[j] > stamps[b] {
                            best = Some(j);
                        }
                    },
                }
            }
            j += 1;
        }
        match best {
            None => {
                proof {
                    assert forall|i: int|
                        0 <= i < n && #[trigger] eligible@[i] implies before.contains(i) by {
                        if !before.contains(i) {
                            assert(after_all(stamps@, before, i));
                            if before.len() > 0 {
                                assert(ranks_before(stamps@, before[before.len() - 1], i));
                            }
                            assert(follows_last(stamps@, before, i));
                        }
                    }
                }
                return picked;
            },
            Some(b) => {
                proof {
                    if before.contains(b as int) {
                        let m = choose|m: int| 0 <= m < before.len() && before[m] == b as int;
                        assert(before[m] == b as int);
                        if m < before.len() - 1 {
                            assert(ranks_before(stamps@, before[m], before[before.len() - 1]));
                        }
                        assert(false);
                    }
                    assert(after_all(stamps@, before, b as int));
                }
                picked.push(b);
                proof {
                    let after = places(picked@);
                    assert(after =~= before.push(b as int));
                    assert forall|k: int, l: int| 0 <= k < l < after.len() implies ranks_before(
                        stamps@,
                        #[trigger] after[k],
                        #[trigger] after[l],
                    ) by {
                        if l < before.len() {
                            assert(after[k] == before[k] && after[l] == before[l]);
                        } else {
                            assert(after[k] == before[k]);
                        }
                    }
                    assert forall|i: int|
                        0 <= i < n && #[trigger] eligible@[i] && !after.contains(i) implies after_all(
                        stamps@,
                        after,
                        i,
                    ) by {
                        if before.contains(i) {
                            let m = choose|m: int| 0 <= m < before.len() && before[m] == i;
                            assert(after[m] == i);
                        }
                        assert(after[before.len() as int] == b as int);
                        assert(i != b as int);
                        assert(after_all(stamps@, before, i));
                        if before.len() > 0 {
                            assert(ranks_before(stamps@, before[before.len() - 1], i));
                        }
                        assert(follows_last(stamps@, before, i));
                        assert forall|k: int| 0 <= k < after.len() implies ranks_before(
                            stamps@,
                            #[trigger] after[k],
                            i,
                        ) by {
                            if k < before.len() {
                                assert(after[k] == before[k]);
                            }
                        }
                    }
                }
            },
        }
    }
    picked
}

} // verus!
