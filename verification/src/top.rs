//! Selection of a few entries by size, in the way the back-reference report picks
//! its most referenced assets: each new entry is carried through the current
//! selection, trading places with every selected entry smaller than itself, and
//! what is carried out at the end is appended while there is room.
use vstd::prelude::*;

verus! {

broadcast use vstd::seq_lib::group_to_multiset_ensures;

/// How many entries are selected at most.
pub const TOP_COUNT: usize = 5;

/// One pass of entry `t`, of size `size`, through `top`: every selected entry smaller
/// than `size` is replaced by the entry carried so far and is carried on instead.
/// Returns the new selection and the entry carried out at the end.
pub open spec fn spec_swap_pass(top: Seq<(u64, usize)>, size: usize, cur: (u64, usize)) -> (
    Seq<(u64, usize)>,
    (u64, usize),
)
    decreases top.len(),
{
    if top.len() == 0 {
        (top, cur)
    } else {
        let first = if top[0].1 < size { cur } else { top[0] };
        let carried = if top[0].1 < size { top[0] } else { cur };
        let (rest, out) = spec_swap_pass(top.drop_first(), size, carried);
        (seq![first] + rest, out)
    }
}

/// The selection after entry `t` was offered: passed through the selection, and
/// the carried-out entry appended while fewer than [`TOP_COUNT`] are selected.
pub open spec fn spec_top_step(top: Seq<(u64, usize)>, t: (u64, usize)) -> Seq<(u64, usize)> {
    let (top2, cur) = spec_swap_pass(top, t.1, t);
    if top2.len() < TOP_COUNT {
        top2.push(cur)
    } else {
        top2
    }
}

/// The selection after offering `entries` in order, starting from none.
pub open spec fn spec_select_top(entries: Seq<(u64, usize)>) -> Seq<(u64, usize)>
    decreases entries.len(),
{
    if entries.len() == 0 {
        Seq::empty()
    } else {
        spec_top_step(spec_select_top(entries.drop_last()), entries.last())
    }
}

/// The keys of a sequence of entries.
pub open spec fn entry_keys(s: Seq<(u64, usize)>) -> Seq<u64> {
    s.map_values(|e: (u64, usize)| e.0)
}

proof fn lemma_swap_pass(top: Seq<(u64, usize)>, size: usize, cur: (u64, usize))
    ensures
        spec_swap_pass(top, size, cur).0.len() == top.len(),
        spec_swap_pass(top, size, cur).0.push(spec_swap_pass(top, size, cur).1).to_multiset()
            =~= top.push(cur).to_multiset(),
        entry_keys(spec_swap_pass(top, size, cur).0.push(spec_swap_pass(top, size, cur).1)).to_multiset()
            =~= entry_keys(top.push(cur)).to_multiset(),
    decreases top.len(),
{
    broadcast use vstd::multiset::group_multiset_axioms;

    if top.len() > 0 {
        let first = if top[0].1 < size { cur } else { top[0] };
        let carried = if top[0].1 < size { top[0] } else { cur };
        let tail = top.drop_first();
        lemma_swap_pass(tail, size, carried);
        let (rest, out) = spec_swap_pass(tail, size, carried);
        assert((seq![first] + rest).push(out) =~= seq![first] + rest.push(out));
        vstd::seq_lib::lemma_multiset_commutative(seq![first], rest.push(out));
        assert(top.push(cur) =~= seq![top[0]] + tail.push(cur));
        vstd::seq_lib::lemma_multiset_commutative(seq![top[0]], tail.push(cur));
        assert(seq![first].to_multiset() =~= Seq::<(u64, usize)>::empty().push(first).to_multiset());
        assert(seq![top[0]].to_multiset() =~= Seq::<(u64, usize)>::empty().push(top[0]).to_multiset());
        assert(entry_keys((seq![first] + rest).push(out)) =~= seq![first.0] + entry_keys(rest.push(out)));
        assert(entry_keys(top.push(cur)) =~= seq![top[0].0] + entry_keys(tail.push(cur)));
        vstd::seq_lib::lemma_multiset_commutative(seq![first.0], entry_keys(rest.push(out)));
        vstd::seq_lib::lemma_multiset_commutative(seq![top[0].0], entry_keys(tail.push(cur)));
        assert(entry_keys(rest.push(out)) =~= entry_keys(rest).push(out.0));
        assert(entry_keys(tail.push(carried)) =~= entry_keys(tail).push(carried.0));
        assert(entry_keys(tail.push(cur)) =~= entry_keys(tail).push(cur.0));
        assert(seq![first.0].to_multiset() =~= Seq::<u64>::empty().push(first.0).to_multiset());
        assert(seq![top[0].0].to_multiset() =~= Seq::<u64>::empty().push(top[0].0).to_multiset());
    }
}

/// The selection holds as many entries as were offered, but at most [`TOP_COUNT`];
/// and it holds only offered entries, none more often than offered.
pub proof fn law_select_top(entries: Seq<(u64, usize)>)
    ensures
        spec_select_top(entries).len() == if entries.len() < TOP_COUNT {
            entries.len()
        } else {
            TOP_COUNT as nat
        },
        spec_select_top(entries).to_multiset().subset_of(entries.to_multiset()),
        entry_keys(spec_select_top(entries)).to_multiset().subset_of(entry_keys(entries).to_multiset()),
    decreases entries.len(),
{
    broadcast use vstd::multiset::group_multiset_axioms;

    if entries.len() > 0 {
        let prev = entries.drop_last();
        let t = entries.last();
        law_select_top(prev);
        let top = spec_select_top(prev);
        lemma_swap_pass(top, t.1, t);
        let (top2, cur) = spec_swap_pass(top, t.1, t);
        assert(entries =~= prev.push(t));
        assert(top2.push(cur).to_multiset() =~= top.to_multiset().insert(t));
        if top2.len() >= TOP_COUNT {
            assert(top2.to_multiset().subset_of(top2.push(cur).to_multiset()));
        }
        assert(top.to_multiset().insert(t).subset_of(prev.to_multiset().insert(t)));
        assert(entry_keys(entries) =~= entry_keys(prev).push(t.0));
        assert(entry_keys(top2.push(cur)) =~= entry_keys(top2).push(cur.0));
        assert(entry_keys(top.push(t)) =~= entry_keys(top).push(t.0));
        assert(entry_keys(top2.push(cur)).to_multiset() =~= entry_keys(top).to_multiset().insert(t.0));
        if top2.len() >= TOP_COUNT {
            assert(entry_keys(top2).to_multiset().subset_of(entry_keys(top2.push(cur)).to_multiset()));
        }
        assert(entry_keys(top).to_multiset().insert(t.0).subset_of(
            entry_keys(prev).to_multiset().insert(t.0),
        ));
    }
}

/// When the offered entries have distinct keys, so have the selected ones.
pub proof fn law_select_top_distinct_keys(entries: Seq<(u64, usize)>)
    requires
        entry_keys(entries).no_duplicates(),
    ensures
        entry_keys(spec_select_top(entries)).no_duplicates(),
{
    broadcast use vstd::multiset::group_multiset_axioms;

    law_select_top(entries);
    let ks = entry_keys(spec_select_top(entries));
    let es = entry_keys(entries);
    es.lemma_multiset_has_no_duplicates();
    assert forall|x: u64| ks.to_multiset().contains(x) implies ks.to_multiset().count(x) == 1 by {
        assert(es.to_multiset().count(x) >= ks.to_multiset().count(x));
        assert(es.to_multiset().contains(x));
    }
    ks.lemma_multiset_has_no_duplicates_conv();
}

/// Entries ordered by size, largest first.
pub open spec fn sorted_by_size(s: Seq<(u64, usize)>) -> bool {
    forall|i: int, j: int| 0 <= i < j < s.len() ==> s[i].1 >= s[j].1
}

/// The index of the first entry smaller than `size`, or the length when none is.
pub open spec fn first_smaller(s: Seq<(u64, usize)>, size: usize) -> int
    decreases s.len(),
{
    if s.len() == 0 {
        0
    } else if s[0].1 < size {
        0
    } else {
        1 + first_smaller(s.drop_first(), size)
    }
}

proof fn lemma_first_smaller(s: Seq<(u64, usize)>, size: usize)
    ensures
        0 <= first_smaller(s, size) <= s.len(),
        forall|i: int| 0 <= i < first_smaller(s, size) ==> s[i].1 >= size,
        first_smaller(s, size) < s.len() ==> s[first_smaller(s, size)].1 < size,
    decreases s.len(),
{
    if s.len() > 0 && s[0].1 >= size {
        lemma_first_smaller(s.drop_first(), size);
        assert forall|i: int| 0 <= i < first_smaller(s, size) implies s[i].1 >= size by {
            if i > 0 {
                assert(s[i] == s.drop_first()[i - 1]);
            }
        }
    }
}

proof fn lemma_swap_pass_shift(top: Seq<(u64, usize)>, size: usize, cur: (u64, usize))
    requires
        forall|i: int| 0 <= i < top.len() ==> top[i].1 < size,
    ensures
        spec_swap_pass(top, size, cur).0.push(spec_swap_pass(top, size, cur).1) == seq![cur] + top,
    decreases top.len(),
{
    if top.len() == 0 {
        assert(seq![cur] + top =~= seq![cur]);
    } else {
        let tail = top.drop_first();
        lemma_swap_pass_shift(tail, size, top[0]);
        let (rest, out) = spec_swap_pass(tail, size, top[0]);
        assert((seq![cur] + rest).push(out) =~= seq![cur] + rest.push(out));
        assert(seq![top[0]] + tail =~= top);
    }
}

proof fn lemma_swap_pass_sorted(top: Seq<(u64, usize)>, t: (u64, usize))
    requires
        sorted_by_size(top),
    ensures
        spec_swap_pass(top, t.1, t).0.push(spec_swap_pass(top, t.1, t).1) == top.insert(
            first_smaller(top, t.1),
            t,
        ),
    decreases top.len(),
{
    lemma_first_smaller(top, t.1);
    if top.len() == 0 {
        assert(top.insert(0, t) =~= seq![t]);
        assert(Seq::<(u64, usize)>::empty().push(t) =~= seq![t]);
    } else if top[0].1 < t.1 {
        let tail = top.drop_first();
        lemma_swap_pass_shift(tail, t.1, top[0]);
        let (rest, out) = spec_swap_pass(tail, t.1, top[0]);
        assert((seq![t] + rest).push(out) =~= seq![t] + rest.push(out));
        assert(seq![top[0]] + tail =~= top);
        assert(top.insert(0, t) =~= seq![t] + top);
    } else {
        let tail = top.drop_first();
        lemma_swap_pass_sorted(tail, t);
        let (rest, out) = spec_swap_pass(tail, t.1, t);
        let p = first_smaller(tail, t.1);
        assert((seq![top[0]] + rest).push(out) =~= seq![top[0]] + rest.push(out));
        assert(seq![top[0]] + tail.insert(p, t) =~= top.insert(p + 1, t));
    }
}

proof fn lemma_insert_sorted(top: Seq<(u64, usize)>, t: (u64, usize))
    requires
        sorted_by_size(top),
    ensures
        sorted_by_size(top.insert(first_smaller(top, t.1), t)),
{
    lemma_first_smaller(top, t.1);
    let p = first_smaller(top, t.1);
    let ins = top.insert(p, t);
    assert forall|i: int, j: int| 0 <= i < j < ins.len() implies ins[i].1 >= ins[j].1 by {
        if j < p {
        } else if j == p {
        } else if i < p {
        } else if i == p {
            assert(ins[j] == top[j - 1]);
        } else {
        }
    }
}

/// `sel` holds the largest of `entries`: each entry is selected, or the selection
/// is full and the entry is no larger than any selected one.
pub open spec fn keeps_largest(sel: Seq<(u64, usize)>, entries: Seq<(u64, usize)>) -> bool {
    forall|i: int|
        0 <= i < entries.len() ==> sel.contains(#[trigger] entries[i]) || (sel.len() == TOP_COUNT
            && forall|j: int| 0 <= j < sel.len() ==> entries[i].1 <= sel[j].1)
}

proof fn lemma_insert_contains(top: Seq<(u64, usize)>, p: int, t: (u64, usize), e: (u64, usize))
    requires
        0 <= p <= top.len(),
        top.contains(e),
    ensures
        exists|m: int| 0 <= m < top.len() + 1 && top.insert(p, t)[m] == e && (m == top.len() ==> top[top.len() - 1] == e),
{
    let k = choose|k: int| 0 <= k < top.len() && top[k] == e;
    if k < p {
        assert(top.insert(p, t)[k] == e);
    } else {
        assert(top.insert(p, t)[k + 1] == e);
    }
}

proof fn lemma_step_not_full(top: Seq<(u64, usize)>, prev: Seq<(u64, usize)>, t: (u64, usize))
    requires
        sorted_by_size(top),
        top.len() < TOP_COUNT,
        keeps_largest(top, prev),
    ensures
        sorted_by_size(spec_top_step(top, t)),
        keeps_largest(spec_top_step(top, t), prev.push(t)),
        spec_top_step(top, t).len() == top.len() + 1,
{
    lemma_swap_pass(top, t.1, t);
    lemma_swap_pass_sorted(top, t);
    lemma_insert_sorted(top, t);
    lemma_first_smaller(top, t.1);
    let p = first_smaller(top, t.1);
    let ins = top.insert(p, t);
    let sel = spec_top_step(top, t);
    assert(sel == ins);
    let es = prev.push(t);
    assert forall|i: int| 0 <= i < es.len() implies sel.contains(#[trigger] es[i]) by {
        if i < prev.len() {
            assert(es[i] == prev[i]);
            lemma_insert_contains(top, p, t, prev[i]);
        } else {
            assert(ins[p] == t);
        }
    }
}

proof fn lemma_step_full(top: Seq<(u64, usize)>, prev: Seq<(u64, usize)>, t: (u64, usize))
    requires
        sorted_by_size(top),
        top.len() == TOP_COUNT,
        keeps_largest(top, prev),
    ensures
        sorted_by_size(spec_top_step(top, t)),
        keeps_largest(spec_top_step(top, t), prev.push(t)),
        spec_top_step(top, t).len() == TOP_COUNT,
{
    lemma_swap_pass(top, t.1, t);
    lemma_swap_pass_sorted(top, t);
    lemma_insert_sorted(top, t);
    lemma_first_smaller(top, t.1);
    let p = first_smaller(top, t.1);
    let ins = top.insert(p, t);
    let (top2, cur) = spec_swap_pass(top, t.1, t);
    assert(top2 =~= ins.drop_last());
    let sel = spec_top_step(top, t);
    assert(sel == top2);
    assert forall|i: int, j: int| 0 <= i < j < sel.len() implies sel[i].1 >= sel[j].1 by {
        assert(sel[i] == ins[i] && sel[j] == ins[j]);
    }
    let low = ins[TOP_COUNT as int];
    assert forall|j: int| 0 <= j < sel.len() implies sel[j].1 >= low.1 by {
        assert(sel[j] == ins[j]);
    }
    let es = prev.push(t);
    assert forall|i: int|
        0 <= i < es.len() implies sel.contains(#[trigger] es[i]) || (sel.len() == TOP_COUNT
        && forall|j: int| 0 <= j < sel.len() ==> es[i].1 <= sel[j].1) by {
        if i < prev.len() {
            let e = prev[i];
            assert(es[i] == e);
            if top.contains(e) {
                lemma_insert_contains(top, p, t, e);
                let m = choose|m: int|
                    0 <= m < top.len() + 1 && ins[m] == e && (m == top.len() ==> top[top.len()
                        - 1] == e);
                if m < sel.len() {
                    assert(sel[m] == e);
                } else {
                    assert(e == low);
                }
            } else {
                assert forall|j: int| 0 <= j < sel.len() implies e.1 <= sel[j].1 by {
                    assert(sel[j] == ins[j]);
                    if p < TOP_COUNT {
                        assert(low == top[top.len() - 1]);
                    } else {
                        assert(ins[j] == top[j]);
                    }
                }
            }
        } else {
            assert(es[i] == t);
            if p < TOP_COUNT {
                assert(sel[p] == ins[p]);
            } else {
                assert forall|j: int| 0 <= j < sel.len() implies t.1 <= sel[j].1 by {
                    assert(sel[j] == ins[j]);
                    assert(ins[j] == top[j]);
                }
            }
        }
    }
}

/// The selection is ordered by size, largest first, and it holds the largest of
/// the offered entries: an offered entry that is not selected is no larger than
/// any selected entry, and then the selection is full.
pub proof fn law_select_top_largest(entries: Seq<(u64, usize)>)
    ensures
        sorted_by_size(spec_select_top(entries)),
        keeps_largest(spec_select_top(entries), entries),
    decreases entries.len(),
{
    if entries.len() > 0 {
        let prev = entries.drop_last();
        let t = entries.last();
        law_select_top_largest(prev);
        law_select_top(prev);
        let top = spec_select_top(prev);
        assert(entries =~= prev.push(t));
        if top.len() < TOP_COUNT {
            lemma_step_not_full(top, prev, t);
        } else {
            lemma_step_full(top, prev, t);
        }
    }
}

/// Offers `entries` in order to an empty selection, and returns the selection.
pub fn select_top(entries: &Vec<(u64, usize)>) -> (r: Vec<(u64, usize)>)
    ensures
        r@ == spec_select_top(entries@),
{
    let mut top: Vec<(u64, usize)> = Vec::new();
    let mut idx: usize = 0;
    assert(entries@.take(0) =~= Seq::<(u64, usize)>::empty());
    while idx < entries.len()
        invariant
            idx <= entries.len(),
            top@ == spec_select_top(entries@.take(idx as int)),
        decreases entries.len() - idx,
    {
        let t = entries[idx];
        let ghost top0 = top@;
        let mut current = t;
        let mut k: usize = 0;
        assert(top0.skip(0) =~= top0);
        assert(top@.take(0) + spec_swap_pass(top0, t.1, t).0 =~= spec_swap_pass(top0, t.1, t).0);
        while k < top.len()
            invariant
                k <= top.len(),
                top@.len() == top0.len(),
                top@.skip(k as int) == top0.skip(k as int),
                spec_swap_pass(top0, t.1, t).0 == top@.take(k as int) + spec_swap_pass(
                    top0.skip(k as int),
                    t.1,
                    current,
                ).0,
                spec_swap_pass(top0, t.1, t).1 == spec_swap_pass(top0.skip(k as int), t.1, current).1,
            decreases top.len() - k,
        {
            let ghost before = top@;
            let ghost cur0 = current;
            let ghost rest = top0.skip(k as int);
            assert(rest[0] == before[k as int]);
            assert(rest.drop_first() =~= top0.skip(k + 1));
            let item = top[k];
            if item.1 < t.1 {
                top.set(k, current);
                current = item;
            }
            proof {
                let (x, y) = spec_swap_pass(rest.drop_first(), t.1, current);
                assert(spec_swap_pass(rest, t.1, cur0) == (seq![top@[k as int]] + x, y));
                assert(top@.take(k + 1) =~= before.take(k as int).push(top@[k as int]));
                assert(before.take(k as int) + (seq![top@[k as int]] + x) =~= top@.take(k + 1) + x);
                assert(top@.skip(k + 1) =~= before.skip(k + 1));
                assert(before.skip(k + 1) =~= before.skip(k as int).drop_first());
            }
            k = k + 1;
        }
        if top.len() < TOP_COUNT {
            top.push(current);
        }
        proof {
            assert(top0.skip(top0.len() as int) =~= Seq::<(u64, usize)>::empty());
            assert(entries@.take(idx + 1).drop_last() =~= entries@.take(idx as int));
            assert(entries@.take(idx + 1).last() == t);
        }
        idx = idx + 1;
    }
    assert(entries@.take(entries.len() as int) =~= entries@);
    top
}

} // verus!
