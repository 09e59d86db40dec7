//! Listing, ordering and picking candidates.
//!
//! A candidate list pairs each item with a rank. Sorting is stable and puts
//! low ranks first; picking takes the last of the highest or the first of the
//! lowest ranks.

use vstd::prelude::*;

verus! {

/// The values that `f` gives on `0..n`, in order, without the gaps.
pub open spec fn collect<A>(n: nat, f: spec_fn(int) -> Option<A>) -> Seq<A>
    decreases n,
{
    if n == 0 {
        Seq::empty()
    } else {
        let before = collect((n - 1) as nat, f);
        match f(n - 1) {
            Some(value) => before.push(value),
            None => before,
        }
    }
}

/// How many `i` in `0..n` satisfy `f`.
pub open spec fn tally(n: nat, f: spec_fn(int) -> bool) -> nat
    decreases n,
{
    if n == 0 {
        0
    } else {
        tally((n - 1) as nat, f) + if f(n - 1) {
            1nat
        } else {
            0nat
        }
    }
}

/// The sum of `f` over `0..n`.
pub open spec fn total(n: nat, f: spec_fn(int) -> int) -> int
    decreases n,
{
    if n == 0 {
        0
    } else {
        total((n - 1) as nat, f) + f(n - 1)
    }
}

/// A sum of naturals is natural and grows with its length.
pub proof fn lemma_total_monotone(m: nat, n: nat, f: spec_fn(int) -> int)
    requires
        m <= n,
        forall|i: int| #[trigger] f(i) >= 0,
    ensures
        0 <= total(m, f) <= total(n, f),
    decreases n,
{
    if n > 0 {
        if m == n {
            lemma_total_monotone((m - 1) as nat, (m - 1) as nat, f);
        } else {
            lemma_total_monotone(m, (n - 1) as nat, f);
        }
    }
}

/// A sum of bounded terms is bounded.
pub proof fn lemma_total_bounded(n: nat, f: spec_fn(int) -> int, bound: int)
    requires
        forall|i: int| #[trigger] f(i) <= bound,
    ensures
        total(n, f) <= n * bound,
    decreases n,
{
    if n > 0 {
        lemma_total_bounded((n - 1) as nat, f, bound);
        assert((n - 1) * bound + bound == n * bound) by (nonlinear_arith);
    } else {
        assert(n * bound == 0) by (nonlinear_arith)
            requires
                n == 0,
        ;
    }
}

/// Sums of the same terms are the same.
pub proof fn lemma_total_same(n: nat, f: spec_fn(int) -> int, g: spec_fn(int) -> int)
    requires
        forall|i: int| 0 <= i < n ==> #[trigger] f(i) == g(i),
    ensures
        total(n, f) == total(n, g),
    decreases n,
{
    if n > 0 {
        lemma_total_same((n - 1) as nat, f, g);
    }
}

/// Sums that differ in one term differ by as much.
pub proof fn lemma_total_but_one(n: nat, f: spec_fn(int) -> int, g: spec_fn(int) -> int, at: int)
    requires
        0 <= at < n,
        forall|i: int| 0 <= i < n && i != at ==> #[trigger] f(i) == g(i),
    ensures
        total(n, g) - total(n, f) == g(at) - f(at),
    decreases n,
{
    let m = (n - 1) as nat;
    if at == m {
        lemma_total_same(m, f, g);
    } else {
        lemma_total_but_one(m, f, g, at);
    }
}

/// Counts of the same things are the same.
pub proof fn lemma_tally_same(n: nat, f: spec_fn(int) -> bool, g: spec_fn(int) -> bool)
    requires
        forall|i: int| 0 <= i < n ==> #[trigger] f(i) == g(i),
    ensures
        tally(n, f) == tally(n, g),
    decreases n,
{
    if n > 0 {
        lemma_tally_same((n - 1) as nat, f, g);
    }
}

/// Collections of the same values are the same.
pub proof fn lemma_collect_same<A>(
    n: nat,
    f: spec_fn(int) -> Option<A>,
    g: spec_fn(int) -> Option<A>,
)
    requires
        forall|i: int| 0 <= i < n ==> #[trigger] f(i) == g(i),
    ensures
        collect(n, f) == collect(n, g),
    decreases n,
{
    if n > 0 {
        lemma_collect_same((n - 1) as nat, f, g);
    }
}

/// Whether `f` gives `value` somewhere on `0..n`.
pub open spec fn gives<A>(n: nat, f: spec_fn(int) -> Option<A>, value: A) -> bool {
    exists|i: int| 0 <= i < n && #[trigger] f(i) == Some(value)
}

/// A collected value comes from some index, and every value given is collected.
pub proof fn lemma_collect_covers<A>(n: nat, f: spec_fn(int) -> Option<A>)
    ensures
        forall|k: int|
            0 <= k < collect(n, f).len() ==> gives(n, f, #[trigger] collect(n, f)[k]),
        forall|i: int|
            0 <= i < n && (#[trigger] f(i)) is Some ==> collect(n, f).contains(f(i)->0),
    decreases n,
{
    if n > 0 {
        let m = (n - 1) as nat;
        lemma_collect_covers(m, f);
        let before = collect(m, f);
        let after = collect(n, f);
        assert forall|k: int| 0 <= k < after.len() implies gives(n, f, #[trigger] after[k]) by {
            if k < before.len() {
                assert(before[k] == after[k]);
                let i = choose|i: int| 0 <= i < m && #[trigger] f(i) == Some(before[k]);
                assert(f(i) == Some(after[k]));
            } else {
                assert(f(n - 1) == Some(after[k]));
            }
        }
        assert forall|i: int| 0 <= i < n && (#[trigger] f(i)) is Some implies after.contains(
            f(i)->0,
        ) by {
            if i < m {
                assert(before.contains(f(i)->0));
                let k = choose|k: int| 0 <= k < before.len() && before[k] == f(i)->0;
                assert(after[k] == f(i)->0);
            } else {
                assert(after[after.len() - 1] == f(i)->0);
            }
        }
    }
}

/// Puts `entry` behind every entry of the same or a lower rank.
pub open spec fn insert_by_rank<A>(sorted: Seq<(A, i128)>, entry: (A, i128)) -> Seq<(A, i128)>
    decreases sorted.len(),
{
    if sorted.len() == 0 || sorted.last().1 <= entry.1 {
        sorted.push(entry)
    } else {
        insert_by_rank(sorted.drop_last(), entry).push(sorted.last())
    }
}

/// The entries by rising rank; entries of one rank keep their order.
pub open spec fn stable_sort<A>(entries: Seq<(A, i128)>) -> Seq<(A, i128)>
    decreases entries.len(),
{
    if entries.len() == 0 {
        entries
    } else {
        insert_by_rank(stable_sort(entries.drop_last()), entries.last())
    }
}

/// Whether ranks never fall.
pub open spec fn ranked<A>(entries: Seq<(A, i128)>) -> bool {
    forall|i: int, j: int| 0 <= i <= j < entries.len() ==> entries[i].1 <= entries[j].1
}

/// Where an entry goes when everything from `at` on outranks it.
proof fn lemma_insert_position<A>(sorted: Seq<(A, i128)>, entry: (A, i128), at: int)
    requires
        0 <= at <= sorted.len(),
        at == 0 || sorted[at - 1].1 <= entry.1,
        forall|k: int| at <= k < sorted.len() ==> sorted[k].1 > entry.1,
    ensures
        insert_by_rank(sorted, entry) == sorted.insert(at, entry),
    decreases sorted.len(),
{
    if at == sorted.len() {
        assert(sorted.insert(at, entry) =~= sorted.push(entry));
    } else {
        let front = sorted.drop_last();
        lemma_insert_position(front, entry, at);
        assert(front.insert(at, entry).push(sorted.last()) =~= sorted.insert(at, entry));
    }
}

/// Inserting keeps ranks in order and adds exactly the entry.
proof fn lemma_insert_keeps<A>(sorted: Seq<(A, i128)>, entry: (A, i128))
    requires
        ranked(sorted),
    ensures
        ranked(insert_by_rank(sorted, entry)),
        insert_by_rank(sorted, entry).len() == sorted.len() + 1,
        insert_by_rank(sorted, entry).to_multiset() == sorted.to_multiset().insert(entry),
        sorted.len() > 0 ==> insert_by_rank(sorted, entry).last().1 >= sorted.last().1,
        insert_by_rank(sorted, entry).last() == entry || (sorted.len() > 0 && insert_by_rank(
            sorted,
            entry,
        ).last() == sorted.last()),
    decreases sorted.len(),
{
    broadcast use vstd::seq_lib::group_to_multiset_ensures;

    if sorted.len() == 0 || sorted.last().1 <= entry.1 {
        assert(sorted.push(entry).to_multiset() =~= sorted.to_multiset().insert(entry));
    } else {
        let front = sorted.drop_last();
        lemma_insert_keeps(front, entry);
        let placed = insert_by_rank(front, entry);
        assert(placed.push(sorted.last()).to_multiset() =~= placed.to_multiset().insert(
            sorted.last(),
        ));
        assert(front.push(sorted.last()) =~= sorted);
        assert(sorted.to_multiset() =~= front.to_multiset().insert(sorted.last()));
        assert(placed.push(sorted.last()).to_multiset() =~= sorted.to_multiset().insert(entry));
    }
}

/// Sorting puts ranks in order and neither loses nor invents an entry.
pub proof fn law_sort_orders<A>(entries: Seq<(A, i128)>)
    ensures
        ranked(stable_sort(entries)),
        stable_sort(entries).len() == entries.len(),
        stable_sort(entries).to_multiset() == entries.to_multiset(),
    decreases entries.len(),
{
    broadcast use vstd::seq_lib::group_to_multiset_ensures;

    if entries.len() > 0 {
        let front = entries.drop_last();
        law_sort_orders(front);
        lemma_insert_keeps(stable_sort(front), entries.last());
        assert(front.push(entries.last()) =~= entries);
        assert(entries.to_multiset() =~= front.to_multiset().insert(entries.last()));
    }
}

/// The entries of one rank.
pub open spec fn of_rank<A>(entries: Seq<(A, i128)>, rank: i128) -> Seq<(A, i128)>
    decreases entries.len(),
{
    if entries.len() == 0 {
        entries
    } else if entries.last().1 == rank {
        of_rank(entries.drop_last(), rank).push(entries.last())
    } else {
        of_rank(entries.drop_last(), rank)
    }
}

/// Inserting puts the entry last among those of its rank.
proof fn lemma_insert_of_rank<A>(sorted: Seq<(A, i128)>, entry: (A, i128), rank: i128)
    ensures
        of_rank(insert_by_rank(sorted, entry), rank) == if entry.1 == rank {
            of_rank(sorted, rank).push(entry)
        } else {
            of_rank(sorted, rank)
        },
    decreases sorted.len(),
{
    if sorted.len() == 0 || sorted.last().1 <= entry.1 {
        assert(sorted.push(entry).drop_last() =~= sorted);
    } else {
        let placed = insert_by_rank(sorted.drop_last(), entry);
        lemma_insert_of_rank(sorted.drop_last(), entry, rank);
        assert(placed.push(sorted.last()).drop_last() =~= placed);
    }
}

/// Sorting keeps the order of entries that share a rank.
pub proof fn law_sort_is_stable<A>(entries: Seq<(A, i128)>, rank: i128)
    ensures
        of_rank(stable_sort(entries), rank) == of_rank(entries, rank),
    decreases entries.len(),
{
    if entries.len() > 0 {
        law_sort_is_stable(entries.drop_last(), rank);
        lemma_insert_of_rank(stable_sort(entries.drop_last()), entries.last(), rank);
    }
}

/// Sorts by rising rank; entries of one rank keep their order.
pub fn sort_by_rank<A: Copy>(entries: &Vec<(A, i128)>) -> (sorted: Vec<(A, i128)>)
    ensures
        sorted@ == stable_sort(entries@),
{
    let mut sorted: Vec<(A, i128)> = Vec::new();
    assert(entries@.take(0) =~= Seq::<(A, i128)>::empty());
    for i in 0..entries.len()
        invariant
            sorted@ == stable_sort(entries@.take(i as int)),
            sorted@.len() == i,
    {
        let entry: (A, i128) = entries[i];
        let mut at: usize = sorted.len();
        proof {
            law_sort_orders(entries@.take(i as int));
        }
        while at > 0 && sorted[at - 1].1 > entry.1
            invariant
                at <= sorted@.len(),
                ranked(sorted@),
                forall|k: int| at <= k < sorted@.len() ==> sorted@[k].1 > entry.1,
            decreases at,
        {
            at = at - 1;
        }
        proof {
            lemma_insert_position(sorted@, entry, at as int);
            assert(entries@.take(i + 1).drop_last() =~= entries@.take(i as int));
            assert(entries@.take(i + 1).last() == entry);
        }
        sorted.insert(at, entry);
    }
    assert(entries@.take(entries@.len() as int) =~= entries@);
    sorted
}

/// Whether entry `i` has the highest rank and nothing behind it shares it.
pub open spec fn is_last_max<A>(entries: Seq<(A, i128)>, i: int) -> bool {
    &&& 0 <= i < entries.len()
    &&& forall|j: int| 0 <= j <= i ==> (#[trigger] entries[j]).1 <= entries[i].1
    &&& forall|j: int| i < j < entries.len() ==> (#[trigger] entries[j]).1 < entries[i].1
}

/// Whether entry `i` has the lowest rank and nothing before it shares it.
pub open spec fn is_first_min<A>(entries: Seq<(A, i128)>, i: int) -> bool {
    &&& 0 <= i < entries.len()
    &&& forall|j: int| 0 <= j < i ==> (#[trigger] entries[j]).1 > entries[i].1
    &&& forall|j: int| i <= j < entries.len() ==> (#[trigger] entries[j]).1 >= entries[i].1
}

/// The item of the highest rank, the last one where several share it.
pub open spec fn last_max<A>(entries: Seq<(A, i128)>) -> Option<A> {
    if entries.len() == 0 {
        None
    } else {
        Some(entries[choose|i: int| is_last_max(entries, i)].0)
    }
}

/// The item of the lowest rank, the first one where several share it.
pub open spec fn first_min<A>(entries: Seq<(A, i128)>) -> Option<A> {
    if entries.len() == 0 {
        None
    } else {
        Some(entries[choose|i: int| is_first_min(entries, i)].0)
    }
}

/// A list with entries has a last highest one.
proof fn lemma_has_last_max<A>(entries: Seq<(A, i128)>) -> (best: int)
    requires
        entries.len() > 0,
    ensures
        is_last_max(entries, best),
    decreases entries.len(),
{
    if entries.len() == 1 {
        0
    } else {
        let front = entries.drop_last();
        let b = lemma_has_last_max(front);
        if entries.last().1 >= entries[b].1 {
            assert forall|j: int| 0 <= j < entries.len() implies (#[trigger] entries[j]).1
                <= entries.last().1 by {
                if j < front.len() {
                    assert(entries[j] == front[j]);
                }
            }
            entries.len() - 1
        } else {
            assert forall|j: int| 0 <= j <= b implies (#[trigger] entries[j]).1 <= entries[b].1 by {
                assert(entries[j] == front[j]);
            }
            assert forall|j: int| b < j < entries.len() implies (#[trigger] entries[j]).1
                < entries[b].1 by {
                if j < front.len() {
                    assert(entries[j] == front[j]);
                }
            }
            b
        }
    }
}

/// The item picked as the last highest one is on the list.
pub proof fn lemma_last_max_listed<A>(entries: Seq<(A, i128)>)
    requires
        entries.len() > 0,
    ensures
        exists|i: int| 0 <= i < entries.len() && last_max(entries) == Some((#[trigger] entries[i]).0),
{
    let b = lemma_has_last_max(entries);
    let i = choose|i: int| is_last_max(entries, i);
    assert(is_last_max(entries, i));
    assert(last_max(entries) == Some(entries[i].0));
}

/// What is chosen is one of the entries, and none outranks it.
pub proof fn lemma_last_max_tops<A>(entries: Seq<(A, i128)>)
    requires
        entries.len() > 0,
    ensures
        exists|i: int| #[trigger] is_last_max(entries, i) && last_max(entries) == Some(entries[i].0),
{
    let b = lemma_has_last_max(entries);
    let i = choose|i: int| is_last_max(entries, i);
    assert(is_last_max(entries, i));
    assert(last_max(entries) == Some(entries[i].0));
}

/// Picks the item of the highest rank, the last one where several share it.
pub fn pick_last_max<A: Copy>(entries: &Vec<(A, i128)>) -> (item: Option<A>)
    ensures
        item == last_max(entries@),
{
    if entries.len() == 0 {
        return None;
    }
    let mut best: usize = 0;
    for i in 1..entries.len()
        invariant
            best < i <= entries@.len(),
            forall|j: int| 0 <= j <= best ==> (#[trigger] entries@[j]).1 <= entries@[best as int].1,
            forall|j: int| best < j < i ==> (#[trigger] entries@[j]).1 < entries@[best as int].1,
    {
        if entries[i].1 >= entries[best].1 {
            best = i;
        }
    }
    assert(is_last_max(entries@, best as int));
    assert(forall|i: int| #[trigger] is_last_max(entries@, i) ==> i == best);
    Some(entries[best].0)
}

/// Picks the item of the lowest rank, the first one where several share it.
pub fn pick_first_min<A: Copy>(entries: &Vec<(A, i128)>) -> (item: Option<A>)
    ensures
        item == first_min(entries@),
{
    if entries.len() == 0 {
        return None;
    }
    let mut best: usize = 0;
    for i in 1..entries.len()
        invariant
            best < i <= entries@.len(),
            forall|j: int| 0 <= j < best ==> (#[trigger] entries@[j]).1 > entries@[best as int].1,
            forall|j: int| best <= j < i ==> (#[trigger] entries@[j]).1 >= entries@[best as int].1,
    {
        if entries[i].1 < entries[best].1 {
            best = i;
        }
    }
    assert(is_first_min(entries@, best as int));
    assert(forall|i: int| #[trigger] is_first_min(entries@, i) ==> i == best);
    Some(entries[best].0)
}

// ---- Choosing among slots --------------------------------------------------

/// Whether `f` gives, for each slot, an entry that names the slot.
pub open spec fn names_slots<A>(n: nat, f: spec_fn(int) -> Option<(A, i128)>, slot: spec_fn(A) -> int) -> bool {
    forall|i: int| 0 <= i < n && (#[trigger] f(i)) is Some ==> slot((f(i)->0).0) == i
}

/// What is collected slot by slot comes in the order of the slots, each entry
/// as its own slot gives it.
pub proof fn lemma_slots_in_order<A>(
    n: nat,
    f: spec_fn(int) -> Option<(A, i128)>,
    slot: spec_fn(A) -> int,
)
    requires
        names_slots(n, f, slot),
    ensures
        forall|a: int, b: int|
            0 <= a < b < collect(n, f).len() ==> slot((#[trigger] collect(n, f)[a]).0) < slot(
                (#[trigger] collect(n, f)[b]).0,
            ),
        forall|a: int|
            0 <= a < collect(n, f).len() ==> 0 <= slot((#[trigger] collect(n, f)[a]).0) < n && f(
                slot(collect(n, f)[a].0),
            ) == Some(collect(n, f)[a]),
    decreases n,
{
    if n > 0 {
        let m = (n - 1) as nat;
        lemma_slots_in_order(m, f, slot);
        let before = collect(m, f);
        let after = collect(n, f);
        if f(m as int) is Some {
            assert(after == before.push(f(m as int)->0));
            assert forall|a: int| 0 <= a < after.len() implies 0 <= slot((#[trigger] after[a]).0)
                < n && f(slot(after[a].0)) == Some(after[a]) by {
                if a < before.len() {
                    assert(before[a] == after[a]);
                }
            }
            assert forall|a: int, b: int| 0 <= a < b < after.len() implies slot(
                (#[trigger] after[a]).0,
            ) < slot((#[trigger] after[b]).0) by {
                assert(before[a] == after[a]);
                if b < before.len() {
                    assert(before[b] == after[b]);
                }
            }
        }
    }
}

/// The choice of the highest rank, in terms of the slots: it is given by its
/// slot, no slot gives a higher rank, and no later slot as high a one.
pub proof fn lemma_highest<A>(
    n: nat,
    f: spec_fn(int) -> Option<(A, i128)>,
    slot: spec_fn(A) -> int,
    other: int,
)
    requires
        names_slots(n, f, slot),
    ensures
        ({
            let best = last_max(collect(n, f));
            &&& best matches Some(a) ==> 0 <= slot(a) < n && f(slot(a)) is Some && (f(
                slot(a),
            )->0).0 == a
            &&& 0 <= other < n && f(other) is Some ==> {
                &&& best is Some
                &&& (f(other)->0).1 <= (f(slot(best->0))->0).1
                &&& other > slot(best->0) ==> (f(other)->0).1 < (f(slot(best->0))->0).1
            }
        }),
{
    let found = collect(n, f);
    lemma_collect_covers(n, f);
    lemma_slots_in_order(n, f, slot);
    if found.len() > 0 {
        lemma_last_max_tops(found);
        let a = choose|a: int| #[trigger]
            is_last_max(found, a) && last_max(found) == Some(found[a].0);
        if 0 <= other < n && f(other) is Some {
            let b = choose|b: int| 0 <= b < found.len() && found[b] == f(other)->0;
            assert(found[b].1 <= found[a].1);
            if other > slot(found[a].0) {
                assert(b > a);
                assert(found[b].1 < found[a].1);
            }
        }
    }
}

/// The choice of the lowest rank, in terms of the slots: it is given by its
/// slot, no slot gives a lower rank, and no earlier slot as low a one.
pub proof fn lemma_lowest<A>(
    n: nat,
    f: spec_fn(int) -> Option<(A, i128)>,
    slot: spec_fn(A) -> int,
    other: int,
)
    requires
        names_slots(n, f, slot),
    ensures
        ({
            let best = first_min(collect(n, f));
            &&& best matches Some(a) ==> 0 <= slot(a) < n && f(slot(a)) is Some && (f(
                slot(a),
            )->0).0 == a
            &&& 0 <= other < n && f(other) is Some ==> {
                &&& best is Some
                &&& (f(other)->0).1 >= (f(slot(best->0))->0).1
                &&& other < slot(best->0) ==> (f(other)->0).1 > (f(slot(best->0))->0).1
            }
        }),
{
    let found = collect(n, f);
    lemma_collect_covers(n, f);
    lemma_slots_in_order(n, f, slot);
    if found.len() > 0 {
        let low = lemma_has_first_min(found);
        let a = choose|a: int| is_first_min(found, a);
        assert(is_first_min(found, a));
        assert(first_min(found) == Some(found[a].0));
        if 0 <= other < n && f(other) is Some {
            let b = choose|b: int| 0 <= b < found.len() && found[b] == f(other)->0;
            assert(found[b].1 >= found[a].1);
            if other < slot(found[a].0) {
                assert(b < a);
                assert(found[b].1 > found[a].1);
            }
        }
    }
}

/// A list with entries has a first lowest one.
pub(crate) proof fn lemma_has_first_min<A>(entries: Seq<(A, i128)>) -> (best: int)
    requires
        entries.len() > 0,
    ensures
        is_first_min(entries, best),
    decreases entries.len(),
{
    if entries.len() == 1 {
        0
    } else {
        let front = entries.drop_last();
        let b = lemma_has_first_min(front);
        assert forall|j: int| 0 <= j < b implies (#[trigger] entries[j]).1 > entries[b].1 by {
            assert(entries[j] == front[j]);
        }
        assert forall|j: int| b <= j < front.len() implies (#[trigger] entries[j]).1
            >= entries[b].1 by {
            assert(entries[j] == front[j]);
        }
        if entries.last().1 < entries[b].1 {
            assert forall|j: int| 0 <= j < entries.len() - 1 implies (#[trigger] entries[j]).1
                > entries.last().1 by {}
            entries.len() - 1
        } else {
            b
        }
    }
}

/// Whether a list rises by rank, and by slot where ranks are equal.
pub open spec fn rises<A>(list: Seq<(A, i128)>, slot: spec_fn(A) -> int) -> bool {
    forall|a: int, b: int|
        0 <= a < b < list.len() ==> (#[trigger] list[a]).1 < (#[trigger] list[b]).1 || (list[a].1
            == list[b].1 && slot(list[a].0) < slot(list[b].0))
}

proof fn lemma_insert_rises<A>(sorted: Seq<(A, i128)>, entry: (A, i128), slot: spec_fn(A) -> int)
    requires
        rises(sorted, slot),
        forall|k: int| 0 <= k < sorted.len() ==> slot((#[trigger] sorted[k]).0) < slot(entry.0),
    ensures
        rises(insert_by_rank(sorted, entry), slot),
        insert_by_rank(sorted, entry).len() == sorted.len() + 1,
        insert_by_rank(sorted, entry).contains(entry),
        forall|k: int|
            0 <= k < sorted.len() ==> insert_by_rank(sorted, entry).contains(#[trigger] sorted[k]),
        forall|k: int|
            0 <= k < insert_by_rank(sorted, entry).len() ==> (#[trigger] insert_by_rank(
                sorted,
                entry,
            )[k]) == entry || sorted.contains(insert_by_rank(sorted, entry)[k]),
    decreases sorted.len(),
{
    let after = insert_by_rank(sorted, entry);
    if sorted.len() == 0 || sorted.last().1 <= entry.1 {
        assert(after == sorted.push(entry));
        assert(after[sorted.len() as int] == entry);
        assert forall|a: int, b: int| 0 <= a < b < after.len() implies (#[trigger] after[a]).1 < (
        #[trigger] after[b]).1 || (after[a].1 == after[b].1 && slot(after[a].0) < slot(
            after[b].0,
        )) by {
            assert(after[a] == sorted[a]);
            if b < sorted.len() {
                assert(after[b] == sorted[b]);
            } else {
                let last = sorted[sorted.len() - 1];
                assert(a == sorted.len() - 1 || sorted[a].1 < last.1 || sorted[a].1 == last.1);
            }
        }
        assert forall|k: int| 0 <= k < sorted.len() implies after.contains(#[trigger] sorted[k]) by {
            assert(after[k] == sorted[k]);
        }
        assert forall|k: int| 0 <= k < after.len() implies (#[trigger] after[k]) == entry
            || sorted.contains(after[k]) by {
            if k < sorted.len() {
                assert(sorted[k] == after[k]);
            }
        }
    } else {
        let front = sorted.drop_last();
        let last = sorted.last();
        assert forall|k: int| 0 <= k < front.len() implies slot((#[trigger] front[k]).0) < slot(
            entry.0,
        ) by {
            assert(front[k] == sorted[k]);
        }
        assert(rises(front, slot)) by {
            assert forall|a: int, b: int| 0 <= a < b < front.len() implies (#[trigger] front[a]).1
                < (#[trigger] front[b]).1 || (front[a].1 == front[b].1 && slot(front[a].0) < slot(
                front[b].0,
            )) by {
                assert(front[a] == sorted[a] && front[b] == sorted[b]);
            }
        }
        lemma_insert_rises(front, entry, slot);
        let placed = insert_by_rank(front, entry);
        assert(after == placed.push(last));
        assert forall|a: int, b: int| 0 <= a < b < after.len() implies (#[trigger] after[a]).1 < (
        #[trigger] after[b]).1 || (after[a].1 == after[b].1 && slot(after[a].0) < slot(
            after[b].0,
        )) by {
            assert(after[a] == placed[a]);
            if b < placed.len() {
                assert(after[b] == placed[b]);
            } else if placed[a] != entry {
                let j = choose|j: int| 0 <= j < front.len() && front[j] == placed[a];
                assert(sorted[j] == placed[a]);
                assert(sorted[sorted.len() - 1] == last);
            }
        }
        let e = choose|e: int| 0 <= e < placed.len() && placed[e] == entry;
        assert(after[e] == entry);
        assert forall|k: int| 0 <= k < sorted.len() implies after.contains(#[trigger] sorted[k]) by {
            if k < front.len() {
                assert(front[k] == sorted[k]);
                let j = choose|j: int| 0 <= j < placed.len() && placed[j] == front[k];
                assert(after[j] == sorted[k]);
            } else {
                assert(after[placed.len() as int] == last);
            }
        }
        assert forall|k: int| 0 <= k < after.len() implies (#[trigger] after[k]) == entry
            || sorted.contains(after[k]) by {
            if k < placed.len() {
                assert(after[k] == placed[k]);
                if placed[k] != entry {
                    let j = choose|j: int| 0 <= j < front.len() && front[j] == placed[k];
                    assert(sorted[j] == placed[k]);
                }
            } else {
                assert(sorted[sorted.len() - 1] == last);
            }
        }
    }
}

/// A sorted choice of slots: it rises by rank and then by slot, holds what
/// every slot gives, and nothing else.
pub proof fn lemma_sorted_slots<A>(
    n: nat,
    f: spec_fn(int) -> Option<(A, i128)>,
    slot: spec_fn(A) -> int,
)
    requires
        names_slots(n, f, slot),
    ensures
        ({
            let sorted = stable_sort(collect(n, f));
            &&& rises(sorted, slot)
            &&& sorted.len() == collect(n, f).len()
        }),
        forall|k: int|
            0 <= k < stable_sort(collect(n, f)).len() ==> 0 <= slot(
                (#[trigger] stable_sort(collect(n, f))[k]).0,
            ) < n && f(slot(stable_sort(collect(n, f))[k].0)) == Some(
                stable_sort(collect(n, f))[k],
            ),
        forall|i: int|
            0 <= i < n && (#[trigger] f(i)) is Some ==> stable_sort(collect(n, f)).contains(
                f(i)->0,
            ),
    decreases n,
{
    if n == 0 {
        assert(stable_sort(collect(n, f)).len() == 0);
    } else {
        let m = (n - 1) as nat;
        lemma_sorted_slots(m, f, slot);
        let before = stable_sort(collect(m, f));
        let after = stable_sort(collect(n, f));
        if f(m as int) is Some {
            let entry = f(m as int)->0;
            assert(collect(n, f) == collect(m, f).push(entry));
            assert(collect(n, f).drop_last() =~= collect(m, f));
            assert(after == insert_by_rank(before, entry));
            lemma_insert_rises(before, entry, slot);
            assert forall|k: int| 0 <= k < after.len() implies 0 <= slot((#[trigger] after[k]).0)
                < n && f(slot(after[k].0)) == Some(after[k]) by {
                if after[k] != entry {
                    let j = choose|j: int| 0 <= j < before.len() && before[j] == after[k];
                    assert(before[j] == after[k]);
                }
            }
            assert forall|i: int| 0 <= i < n && (#[trigger] f(i)) is Some implies after.contains(
                f(i)->0,
            ) by {
                if i < m {
                    let j = choose|j: int| 0 <= j < before.len() && before[j] == f(i)->0;
                    assert(after.contains(before[j]));
                }
            }
        }
    }
}

} // verus!
