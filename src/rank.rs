use vstd::prelude::*;
use fuzzy_matcher::FuzzyMatcher;
use crate::types::Entry;
use crate::usage::{current_timestamp, usage_boost, UsageTracker, BOOST_SCALE};

verus! {

/// Score that the skim fuzzy matcher, in its default configuration, gives
/// `choice` for the query `pattern` (`None`: no match).
pub uninterp spec fn skim_score(choice: Seq<char>, pattern: Seq<char>) -> Option<i64>;

/// ASCII letters compared without case; every other character as itself.
pub open spec fn ascii_eq_ignore_case(a: char, b: char) -> bool {
    a == b || ('A' <= a <= 'Z' && (a as u32) + 32 == (b as u32)) || ('A' <= b <= 'Z' && (b as u32)
        + 32 == (a as u32))
}

/// The characters of `pattern` occur in order in `choice`, ASCII case aside.
pub open spec fn ascii_subsequence(pattern: Seq<char>, choice: Seq<char>) -> bool
    decreases choice.len(),
{
    if pattern.len() == 0 {
        true
    } else if choice.len() == 0 {
        false
    } else if ascii_eq_ignore_case(choice[0], pattern[0]) {
        ascii_subsequence(pattern.drop_first(), choice.drop_first())
    } else {
        ascii_subsequence(pattern, choice.drop_first())
    }
}

/// Relies on `fuzzy_matcher::skim::SkimMatcherV2::default()` and its
/// `FuzzyMatcher::fuzzy_match`: the score depends on the two strings alone,
/// an empty pattern scores 0, and a match needs the pattern's characters in
/// order in the choice (ASCII case aside).
#[verifier::external_body]
fn fuzzy_score(choice: &str, pattern: &str) -> (r: Option<i64>)
    ensures
        r == skim_score(choice@, pattern@),
        pattern@.len() == 0 ==> r == Some(0i64),
        r is Some ==> ascii_subsequence(pattern@, choice@),
{
    fuzzy_matcher::skim::SkimMatcherV2::default().fuzzy_match(choice, pattern)
}

/// Entry `a` goes before entry `b`: a higher key, or an equal key and an
/// earlier position.
pub open spec fn goes_before(keys: Seq<Option<i128>>, a: int, b: int) -> bool {
    keys[a]->Some_0 > keys[b]->Some_0 || (keys[a]->Some_0 == keys[b]->Some_0 && a < b)
}

/// `order` lists, by descending key and then by position, every position of
/// `keys` that holds a key, and no other.
pub open spec fn ranked_by(keys: Seq<Option<i128>>, order: Seq<usize>) -> bool {
    &&& forall|i: int| 0 <= i < order.len() ==> #[trigger] order[i] < keys.len() && keys[order[i] as int] is Some
    &&& forall|j: int| 0 <= j < keys.len() && keys[j] is Some ==> #[trigger] order.contains(j as usize)
    &&& forall|a: int, b: int|
        0 <= a < b < order.len() ==> goes_before(keys, #[trigger] order[a] as int, #[trigger] order[b] as int)
}

/// Whether the key at position `j` is absent or at least `key`.
fn key_at_least(keys: &Vec<Option<i128>>, j: usize, key: i128) -> (r: bool)
    requires
        j < keys@.len(),
    ensures
        r == match keys@[j as int] {
            Some(k) => k >= key,
            None => true,
        },
{
    match keys[j] {
        Some(k) => k >= key,
        None => true,
    }
}

/// Positions of `keys` that hold a key, by descending key; equal keys keep
/// their order (a stable insertion sort).
pub fn rank_order(keys: &Vec<Option<i128>>) -> (order: Vec<usize>)
    ensures
        ranked_by(keys@, order@),
{
    let mut order: Vec<usize> = Vec::new();
    let mut idx: usize = 0;
    while idx < keys.len()
        invariant
            idx <= keys@.len(),
            forall|i: int| 0 <= i < order@.len() ==> #[trigger] order@[i] < idx && keys@[order@[i] as int] is Some,
            forall|j: int| 0 <= j < idx && keys@[j] is Some ==> #[trigger] order@.contains(j as usize),
            forall|a: int, b: int|
                0 <= a < b < order@.len() ==> goes_before(keys@, #[trigger] order@[a] as int, #[trigger] order@[b] as int),
        decreases keys@.len() - idx,
    {
        if let Some(key) = keys[idx] {
            let mut p: usize = 0;
            while p < order.len() && key_at_least(keys, order[p], key)
                invariant
                    p <= order@.len(),
                    idx < keys@.len(),
                    keys@[idx as int] == Some(key),
                    forall|i: int| 0 <= i < order@.len() ==> #[trigger] order@[i] < idx && keys@[order@[i] as int] is Some,
                    forall|a: int| 0 <= a < p ==> keys@[#[trigger] order@[a] as int]->Some_0 >= key,
                decreases order@.len() - p,
            {
                p = p + 1;
            }
            let ghost before = order@;
            proof {
                // every entry from p on has a key below the new one
                assert forall|a: int| p <= a < before.len() implies keys@[#[trigger] before[a] as int]->Some_0 < key by {
                    if a > p {
                        assert(goes_before(keys@, before[p as int] as int, before[a] as int));
                    }
                }
            }
            order.insert(p, idx);
            proof {
                assert forall|i: int| 0 <= i < order@.len() implies #[trigger] order@[i] < idx + 1 && keys@[order@[i] as int] is Some by {
                    if i < p {
                        assert(order@[i] == before[i]);
                    } else if i > p {
                        assert(order@[i] == before[i - 1]);
                    }
                }
                assert forall|j: int| 0 <= j < idx + 1 && keys@[j] is Some implies #[trigger] order@.contains(j as usize) by {
                    if j == idx {
                        assert(order@[p as int] == idx);
                    } else {
                        assert(before.contains(j as usize));
                        let w = choose|w: int| 0 <= w < before.len() && before[w] == j as usize;
                        if w < p {
                            assert(order@[w] == before[w]);
                        } else {
                            assert(order@[w + 1] == before[w]);
                        }
                    }
                }
                assert forall|a: int, b: int| 0 <= a < b < order@.len() implies goes_before(keys@, #[trigger] order@[a] as int, #[trigger] order@[b] as int) by {
                    if b < p {
                        assert(order@[a] == before[a] && order@[b] == before[b]);
                    } else if b == p {
                        assert(order@[a] == before[a]);
                    } else if a < p {
                        assert(order@[a] == before[a] && order@[b] == before[b - 1]);
                    } else if a == p {
                        assert(order@[b] == before[b - 1]);
                    } else {
                        assert(order@[a] == before[a - 1] && order@[b] == before[b - 1]);
                    }
                }
            }
        }
        idx = idx + 1;
    }
    order
}

/// `r` holds the entries of `entries` at the positions ranked by `keys`.
pub open spec fn ranked_entries(entries: Seq<Entry>, keys: Seq<Option<i128>>, r: Seq<Entry>) -> bool {
    exists|order: Seq<usize>|
        #[trigger] ranked_by(keys, order) && r.len() == order.len() && forall|i: int|
            0 <= i < r.len() ==> r[i] == entries[order[i] as int]
}

/// The entries of `entries` whose key is present, by descending key; equal
/// keys keep their order.
pub fn rank_by_keys(entries: &Vec<Entry>, keys: &Vec<Option<i128>>) -> (r: Vec<Entry>)
    requires
        keys@.len() == entries@.len(),
    ensures
        ranked_entries(entries@, keys@, r@),
{
    let order = rank_order(keys);
    let mut out: Vec<Entry> = Vec::new();
    let mut i: usize = 0;
    while i < order.len()
        invariant
            keys@.len() == entries@.len(),
            ranked_by(keys@, order@),
            i <= order@.len(),
            out@.len() == i,
            forall|j: int| 0 <= j < i ==> #[trigger] out@[j] == entries@[order@[j] as int],
        decreases order@.len() - i,
    {
        assert(order@[i as int] < keys@.len());
        out.push(entries[order[i]].clone());
        i = i + 1;
    }
    out
}

/// Ranking key of a candidate named `name` for the query `query`: its boost
/// for an empty query; otherwise, when the name matches, the fuzzy score
/// times `2 + boost` (in units of the boost scale), which orders as
/// `score * (1 + boost / 2)`.
pub open spec fn rank_key(
    name: Seq<char>,
    query: Seq<char>,
    usage: Map<Seq<char>, crate::usage::UsageStats>,
    now: u64,
) -> Option<i128> {
    let boost = usage_boost(usage, name, now);
    if query.len() == 0 {
        Some(boost as i128)
    } else {
        match skim_score(name, query) {
            Some(score) => Some((score * (2 * BOOST_SCALE + boost)) as i128),
            None => None,
        }
    }
}

/// Ranking keys of every entry.
pub open spec fn rank_keys(
    entries: Seq<Entry>,
    query: Seq<char>,
    usage: Map<Seq<char>, crate::usage::UsageStats>,
    now: u64,
) -> Seq<Option<i128>> {
    entries.map_values(|e: Entry| rank_key(e.name@, query, usage, now))
}

/// Ranks `entries` for `query` with the usage of `tracker` at the time `now`.
/// An empty query keeps every entry, by descending boost. Otherwise only
/// the entries whose name fuzzily matches stay, by descending fuzzy score
/// raised by up to half by the boost. Equal keys keep their order.
pub fn rank_at(entries: &Vec<Entry>, query: &str, tracker: &UsageTracker, now: u64) -> (r: Vec<
    Entry,
>)
    requires
        tracker.wf(),
    ensures
        ranked_entries(entries@, rank_keys(entries@, query@, tracker@, now), r@),
        query@.len() > 0 ==> forall|i: int|
            0 <= i < r@.len() ==> ascii_subsequence(query@, (#[trigger] r@[i]).name@),
{
    let empty = query.unicode_len() == 0;
    let mut keys: Vec<Option<i128>> = Vec::new();
    let mut i: usize = 0;
    while i < entries.len()
        invariant
            tracker.wf(),
            empty == (query@.len() == 0),
            i <= entries@.len(),
            keys@.len() == i,
            forall|j: int| 0 <= j < i ==> #[trigger] keys@[j] == rank_key(entries@[j].name@, query@, tracker@, now),
            forall|j: int|
                0 <= j < i && !empty && (#[trigger] keys@[j]) is Some ==> ascii_subsequence(
                    query@,
                    entries@[j].name@,
                ),
        decreases entries@.len() - i,
    {
        let name = entries[i].name.as_str();
        let boost = tracker.calculate_boost_at(name, now);
        let key = if empty {
            Some(boost as i128)
        } else {
            match fuzzy_score(name, query) {
                Some(score) => {
                    assert(i128::MIN <= score * (2 * BOOST_SCALE + boost) <= i128::MAX) by (nonlinear_arith)
                        requires
                            i64::MIN <= score <= i64::MAX,
                            0 <= boost <= BOOST_SCALE,
                    ;
                    Some(score as i128 * (2 * BOOST_SCALE + boost) as i128)
                },
                None => None,
            }
        };
        keys.push(key);
        i = i + 1;
    }
    proof {
        assert(keys@ =~= rank_keys(entries@, query@, tracker@, now));
    }
    let r = rank_by_keys(entries, &keys);
    proof {
        let order = choose|order: Seq<usize>|
            #[trigger] ranked_by(keys@, order) && r@.len() == order.len() && forall|i: int|
                0 <= i < r@.len() ==> r@[i] == entries@[order[i] as int];
        assert forall|i: int| query@.len() > 0 && 0 <= i < r@.len() implies ascii_subsequence(query@, (#[trigger] r@[i]).name@) by {
            assert(keys@[order[i] as int] is Some);
        }
    }
    r
}

/// Ranks `entries` for `query` with the usage of `tracker` now (see `rank_at`).
pub fn rank(entries: &Vec<Entry>, query: &str, tracker: &UsageTracker) -> (r: Vec<Entry>)
    requires
        tracker.wf(),
    ensures
        exists|now: u64| ranked_entries(entries@, rank_keys(entries@, query@, tracker@, now), r@),
        query@.len() > 0 ==> forall|i: int|
            0 <= i < r@.len() ==> ascii_subsequence(query@, (#[trigger] r@[i]).name@),
{
    let now = current_timestamp();
    rank_at(entries, query, tracker, now)
}

/// `order` lists each position below `n` exactly once.
pub open spec fn is_permutation(order: Seq<usize>, n: nat) -> bool {
    &&& order.len() == n
    &&& forall|i: int| 0 <= i < order.len() ==> #[trigger] order[i] < n
    &&& forall|a: int, b: int|
        0 <= a < b < order.len() ==> #[trigger] order[a] != #[trigger] order[b]
}

proof fn lemma_covering_length(order: Seq<usize>, n: nat)
    requires
        n <= usize::MAX,
        forall|i: int| 0 <= i < order.len() ==> #[trigger] order[i] < n,
        forall|j: int| 0 <= j < n ==> #[trigger] order.contains(j as usize),
        forall|a: int, b: int| 0 <= a < b < order.len() ==> #[trigger] order[a] != #[trigger] order[b],
    ensures
        order.len() == n,
{
    let ints = order.map_values(|x: usize| x as int);
    assert forall|a: int, b: int| 0 <= a < ints.len() && 0 <= b < ints.len() && a != b implies ints[a] != ints[b] by {
        if a < b {
            assert(order[a] != order[b]);
        } else {
            assert(order[b] != order[a]);
        }
    }
    assert(ints.no_duplicates());
    ints.unique_seq_to_set();
    assert forall|x: int| ints.to_set().contains(x) == vstd::set_lib::set_int_range(0, n as int).contains(x) by {
        if 0 <= x < n {
            assert(order.contains(x as usize));
            let w = choose|w: int| 0 <= w < order.len() && order[w] == x as usize;
            assert(ints[w] == x);
        }
        if ints.to_set().contains(x) {
            let w = choose|w: int| 0 <= w < ints.len() && ints[w] == x;
            assert(order[w] < n);
        }
    }
    assert(ints.to_set() =~= vstd::set_lib::set_int_range(0, n as int));
    vstd::set_lib::lemma_int_range(0, n as int);
}

/// With an empty query, ranking keeps every entry exactly once, puts them
/// by descending boost, and keeps the order of entries of equal boost.
pub proof fn lemma_empty_query_ranking(
    entries: Seq<Entry>,
    query: Seq<char>,
    usage: Map<Seq<char>, crate::usage::UsageStats>,
    now: u64,
    r: Seq<Entry>,
)
    requires
        entries.len() <= usize::MAX,
        query.len() == 0,
        ranked_entries(entries, rank_keys(entries, query, usage, now), r),
    ensures
        exists|order: Seq<usize>|
            #[trigger] is_permutation(order, entries.len()) && r.len() == entries.len() && (forall|i: int|
                0 <= i < r.len() ==> r[i] == entries[order[i] as int]) && (forall|a: int, b: int|
                0 <= a < b < r.len() ==> usage_boost(usage, (#[trigger] r[a]).name@, now) >= usage_boost(
                    usage,
                    (#[trigger] r[b]).name@,
                    now,
                ) && (usage_boost(usage, r[a].name@, now) == usage_boost(usage, r[b].name@, now)
                    ==> order[a] < order[b])),
{
    let keys = rank_keys(entries, query, usage, now);
    let order = choose|order: Seq<usize>|
        #[trigger] ranked_by(keys, order) && r.len() == order.len() && forall|i: int|
            0 <= i < r.len() ==> r[i] == entries[order[i] as int];
    assert forall|j: int| 0 <= j < keys.len() implies keys[j] == Some(
        usage_boost(usage, entries[j].name@, now) as i128,
    ) by {}
    assert forall|a: int, b: int| 0 <= a < b < order.len() implies #[trigger] order[a] != #[trigger] order[b] by {
        assert(goes_before(keys, order[a] as int, order[b] as int));
    }
    assert forall|j: int| 0 <= j < entries.len() implies #[trigger] order.contains(j as usize) by {
        assert(keys[j] is Some);
    }
    lemma_covering_length(order, entries.len());
    assert forall|a: int, b: int| 0 <= a < b < r.len() implies usage_boost(usage, (#[trigger] r[a]).name@, now) >= usage_boost(
        usage,
        (#[trigger] r[b]).name@,
        now,
    ) && (usage_boost(usage, r[a].name@, now) == usage_boost(usage, r[b].name@, now) ==> order[a] < order[b]) by {
        assert(goes_before(keys, order[a] as int, order[b] as int));
        let ba = usage_boost(usage, r[a].name@, now);
        let bb = usage_boost(usage, r[b].name@, now);
        assert(0 <= ba <= BOOST_SCALE && 0 <= bb <= BOOST_SCALE) by {
            crate::usage::lemma_usage_boost_bounds(usage, r[a].name@, now);
            crate::usage::lemma_usage_boost_bounds(usage, r[b].name@, now);
        }
        assert(keys[order[a] as int] == Some(ba as i128));
        assert(keys[order[b] as int] == Some(bb as i128));
    }
    assert(is_permutation(order, entries.len()));
}

} // verus!
