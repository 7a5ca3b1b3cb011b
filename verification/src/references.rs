//! The index of back references of output assets: which assets reference a given
//! asset, and a selection of the most referenced assets.
use vstd::prelude::*;
use vstd::std_specs::iter::IteratorSpec;
use std::collections::{HashMap, HashSet};
use crate::graph::{children_assets, graph_assets, AggregatedGraph, OutputAsset};
use crate::top::{
    entry_keys, keeps_largest, law_select_top, law_select_top_distinct_keys, law_select_top_largest,
    select_top, spec_select_top, TOP_COUNT,
};

verus! {

broadcast use {vstd::std_specs::hash::group_hash_axioms, vstd::seq_lib::group_to_multiset_ensures};

/// For each referenced asset, the assets that reference it.
#[derive(Debug)]
pub struct ReferencesList {
    pub referenced_by: HashMap<u64, HashSet<u64>>,
}

/// A map of hash sets as a map of sets.
pub open spec fn sets_view(m: Map<u64, HashSet<u64>>) -> Map<u64, Set<u64>> {
    m.map_values(|s: HashSet<u64>| s@)
}

impl View for ReferencesList {
    type V = Map<u64, Set<u64>>;

    open spec fn view(&self) -> Map<u64, Set<u64>> {
        sets_view(self.referenced_by@)
    }
}

/// Some asset of `assets` references `r`.
pub open spec fn referenced_in(assets: Seq<OutputAsset>, r: u64) -> bool {
    exists|i: int| 0 <= i < assets.len() && (#[trigger] assets[i]).references@.contains(r)
}

/// The handles of the assets of `assets` that reference `r`.
pub open spec fn referrers(assets: Seq<OutputAsset>, r: u64) -> Set<u64> {
    Set::new(
        |x: u64|
            exists|i: int|
                0 <= i < assets.len() && (#[trigger] assets[i]).id == x
                    && assets[i].references@.contains(r),
    )
}

/// The back references of `assets`: every asset referenced by one of them, mapped
/// to the set of those that reference it.
pub open spec fn spec_back_references(assets: Seq<OutputAsset>) -> Map<u64, Set<u64>> {
    Map::new(|r: u64| referenced_in(assets, r), |r: u64| referrers(assets, r))
}

/// The set `m` maps `k` to, empty when `k` is not mapped.
pub open spec fn entry(m: Map<u64, Set<u64>>, k: u64) -> Set<u64> {
    if m.contains_key(k) {
        m[k]
    } else {
        Set::empty()
    }
}

/// Two indexes merged: every key of either, mapped to the union of its sets.
pub open spec fn union_maps(a: Map<u64, Set<u64>>, b: Map<u64, Set<u64>>) -> Map<u64, Set<u64>> {
    Map::new(
        |k: u64| a.contains_key(k) || b.contains_key(k),
        |k: u64| entry(a, k).union(entry(b, k)),
    )
}

/// The back references of two groups of assets together are the two indexes
/// merged: every asset referenced in either, mapped to the union of its referrers.
pub proof fn law_back_references_concat(a: Seq<OutputAsset>, b: Seq<OutputAsset>)
    ensures
        spec_back_references(a + b) =~~= union_maps(spec_back_references(a), spec_back_references(b)),
{
    let ab = a + b;
    assert forall|r: u64| referenced_in(ab, r) == (referenced_in(a, r) || referenced_in(b, r)) by {
        if referenced_in(ab, r) {
            let i = choose|i: int| 0 <= i < ab.len() && (#[trigger] ab[i]).references@.contains(r);
            if i < a.len() {
                assert(a[i] == ab[i]);
            } else {
                assert(b[i - a.len()] == ab[i]);
            }
        }
        if referenced_in(a, r) {
            let i = choose|i: int| 0 <= i < a.len() && (#[trigger] a[i]).references@.contains(r);
            assert(ab[i] == a[i]);
        }
        if referenced_in(b, r) {
            let i = choose|i: int| 0 <= i < b.len() && (#[trigger] b[i]).references@.contains(r);
            assert(ab[i + a.len()] == b[i]);
        }
    }
    assert forall|r: u64| referenced_in(ab, r) implies referrers(ab, r) =~= entry(
        spec_back_references(a),
        r,
    ).union(entry(spec_back_references(b), r)) by {
        assert forall|x: u64| referrers(ab, r).contains(x) == (referrers(a, r).contains(x)
            || referrers(b, r).contains(x)) by {
            if referrers(ab, r).contains(x) {
                let i = choose|i: int|
                    0 <= i < ab.len() && (#[trigger] ab[i]).id == x && ab[i].references@.contains(
                        r,
                    );
                if i < a.len() {
                    assert(a[i] == ab[i]);
                } else {
                    assert(b[i - a.len()] == ab[i]);
                }
            }
            if referrers(a, r).contains(x) {
                let i = choose|i: int|
                    0 <= i < a.len() && (#[trigger] a[i]).id == x && a[i].references@.contains(r);
                assert(ab[i] == a[i]);
            }
            if referrers(b, r).contains(x) {
                let i = choose|i: int|
                    0 <= i < b.len() && (#[trigger] b[i]).id == x && b[i].references@.contains(r);
                assert(ab[i + a.len()] == b[i]);
            }
        }
        if !referenced_in(a, r) {
            assert(referrers(a, r) =~= Set::empty()) by {
                if exists|x: u64| referrers(a, r).contains(x) {
                    let x = choose|x: u64| referrers(a, r).contains(x);
                    let i = choose|i: int|
                        0 <= i < a.len() && (#[trigger] a[i]).id == x && a[i].references@.contains(
                            r,
                        );
                }
            }
        }
        if !referenced_in(b, r) {
            assert(referrers(b, r) =~= Set::empty()) by {
                if exists|x: u64| referrers(b, r).contains(x) {
                    let x = choose|x: u64| referrers(b, r).contains(x);
                    let i = choose|i: int|
                        0 <= i < b.len() && (#[trigger] b[i]).id == x && b[i].references@.contains(
                            r,
                        );
                }
            }
        }
    }
}

/// A single asset is the only referrer of each asset it references, and nothing
/// else is in its index.
pub proof fn law_back_references_single(a: OutputAsset)
    ensures
        spec_back_references(seq![a]).dom() == a.references@.to_set(),
        forall|r: u64| a.references@.contains(r) ==> #[trigger] spec_back_references(seq![a])[r] == set![a.id],
{
    let s = seq![a];
    assert(s[0] == a);
    assert forall|r: u64| referenced_in(s, r) <==> a.references@.contains(r) by {
        if a.references@.contains(r) {
            assert(s[0].references@.contains(r));
        }
    }
    assert(spec_back_references(s).dom() =~= a.references@.to_set());
    assert forall|r: u64| a.references@.contains(r) implies #[trigger] spec_back_references(s)[r]
        == set![a.id] by {
        assert(s[0].id == a.id && s[0].references@.contains(r));
        assert(referrers(s, r) =~= set![a.id]);
    }
}

/// The back-reference index of child `i` of a group.
pub open spec fn child_index(cs: Seq<AggregatedGraph>, i: int) -> Map<u64, Set<u64>> {
    spec_back_references(graph_assets(cs[i]))
}

/// The back references of a group of any number of children are the children's
/// indexes merged pointwise: an asset is referenced in the group exactly when it
/// is referenced in some child, and its referrers are those it has in any child.
/// So the index does not depend on the order of the children.
pub proof fn law_back_references_children(cs: Seq<AggregatedGraph>)
    ensures
        forall|r: u64|
            #![trigger spec_back_references(children_assets(cs)).contains_key(r)]
            spec_back_references(children_assets(cs)).contains_key(r) <==> exists|i: int|
                0 <= i < cs.len() && (#[trigger] child_index(cs, i)).contains_key(r),
        forall|r: u64, x: u64|
            #![trigger entry(spec_back_references(children_assets(cs)), r).contains(x)]
            entry(spec_back_references(children_assets(cs)), r).contains(x) <==> exists|i: int|
                0 <= i < cs.len() && entry(#[trigger] child_index(cs, i), r).contains(x),
    decreases cs.len(),
{
    let all = spec_back_references(children_assets(cs));
    if cs.len() == 0 {
        assert forall|r: u64| !all.contains_key(r) by {
            assert(children_assets(cs).len() == 0);
        }
    } else {
        let init = cs.drop_last();
        law_back_references_children(init);
        law_back_references_concat(children_assets(init), graph_assets(cs.last()));
        let a = spec_back_references(children_assets(init));
        let b = spec_back_references(graph_assets(cs.last()));
        assert(all == union_maps(a, b));
        assert(child_index(cs, cs.len() - 1) == b);
        assert forall|i: int| 0 <= i < init.len() implies child_index(init, i) == child_index(
            cs,
            i,
        ) by {
            assert(init[i] == cs[i]);
        }
        assert forall|r: u64| all.contains_key(r) <==> exists|i: int|
            0 <= i < cs.len() && (#[trigger] child_index(cs, i)).contains_key(r) by {
            if a.contains_key(r) {
                let i = choose|i: int|
                    0 <= i < init.len() && (#[trigger] child_index(init, i)).contains_key(r);
                assert(child_index(cs, i) == child_index(init, i));
            }
            if exists|i: int| 0 <= i < cs.len() && (#[trigger] child_index(cs, i)).contains_key(r) {
                let i = choose|i: int|
                    0 <= i < cs.len() && (#[trigger] child_index(cs, i)).contains_key(r);
                if i < init.len() {
                    assert(child_index(init, i) == child_index(cs, i));
                }
            }
        }
        assert forall|r: u64, x: u64| entry(all, r).contains(x) <==> exists|i: int|
            0 <= i < cs.len() && entry(#[trigger] child_index(cs, i), r).contains(x) by {
            assert(entry(all, r) =~= entry(a, r).union(entry(b, r)));
            if entry(a, r).contains(x) {
                let i = choose|i: int|
                    0 <= i < init.len() && entry(#[trigger] child_index(init, i), r).contains(x);
                assert(child_index(cs, i) == child_index(init, i));
            }
            if exists|i: int| 0 <= i < cs.len() && entry(#[trigger] child_index(cs, i), r).contains(x) {
                let i = choose|i: int|
                    0 <= i < cs.len() && entry(#[trigger] child_index(cs, i), r).contains(x);
                if i < init.len() {
                    assert(child_index(init, i) == child_index(cs, i));
                }
            }
        }
    }
}

/// A copy of a hash set.
fn copy_set(s: &HashSet<u64>) -> (r: HashSet<u64>)
    ensures
        r@ == s@,
{
    let mut r: HashSet<u64> = HashSet::new();
    let ghost keys = s.iter().remaining();
    for x in it: s.iter()
        invariant
            it.seq() == keys,
            keys.unref().to_set() == s@,
            forall|y: u64| r@.contains(y) <==> exists|i: int| 0 <= i < it.index() && *keys[i] == y,
    {
        r.insert(*x);
        assert(*keys[it.index() as int] == *x);
        assert forall|y: u64|
            r@.contains(y) <==> exists|i: int| 0 <= i < it.index() + 1 && *keys[i] == y by {
            if r@.contains(y) && y != *x {
                let i = choose|i: int| 0 <= i < it.index() && *keys[i] == y;
            }
        }
    }
    assert forall|y: u64| r@.contains(y) <==> s@.contains(y) by {
        if s@.contains(y) {
            assert(keys.unref().to_set().contains(y));
            let i = choose|i: int| 0 <= i < keys.unref().len() && keys.unref()[i] == y;
            assert(*keys[i] == y);
        }
        if r@.contains(y) {
            let i = choose|i: int| 0 <= i < keys.len() && *keys[i] == y;
            assert(keys.unref()[i] == y);
            assert(keys.unref().to_set().contains(y));
        }
    }
    assert(r@ =~= s@);
    r
}

/// `into` with every element of `from` added.
fn add_all(into: HashSet<u64>, from: &HashSet<u64>) -> (r: HashSet<u64>)
    ensures
        r@ == into@.union(from@),
{
    let mut r = into;
    let ghost start = r@;
    let ghost keys = from.iter().remaining();
    for x in it: from.iter()
        invariant
            it.seq() == keys,
            keys.unref().to_set() == from@,
            forall|y: u64|
                #![trigger r@.contains(y)]
                r@.contains(y) <==> (start.contains(y) || exists|i: int|
                    0 <= i < it.index() && *keys[i] == y),
    {
        r.insert(*x);
        assert(*keys[it.index() as int] == *x);
        assert forall|y: u64|
            r@.contains(y) <==> (start.contains(y) || exists|i: int|
                0 <= i < it.index() + 1 && *keys[i] == y) by {
            if r@.contains(y) && y != *x && !start.contains(y) {
                let i = choose|i: int| 0 <= i < it.index() && *keys[i] == y;
            }
        }
    }
    assert forall|y: u64| r@.contains(y) <==> start.union(from@).contains(y) by {
        if from@.contains(y) {
            assert(keys.unref().to_set().contains(y));
            let i = choose|i: int| 0 <= i < keys.unref().len() && keys.unref()[i] == y;
            assert(*keys[i] == y);
        }
        if r@.contains(y) && !start.contains(y) {
            let i = choose|i: int| 0 <= i < keys.len() && *keys[i] == y;
            assert(keys.unref()[i] == y);
            assert(keys.unref().to_set().contains(y));
        }
    }
    assert(r@ =~= start.union(from@));
    r
}

/// One of the first `n` entries of `es` has key `k`.
pub open spec fn seen_key(es: Seq<(&u64, &HashSet<u64>)>, n: int, k: u64) -> bool {
    exists|i: int| 0 <= i < n && *(#[trigger] es[i]).0 == k
}

/// `acc` with every entry of `list` merged in.
fn merge(acc: HashMap<u64, HashSet<u64>>, list: &HashMap<u64, HashSet<u64>>) -> (r: HashMap<
    u64,
    HashSet<u64>,
>)
    ensures
        sets_view(r@) =~~= union_maps(sets_view(acc@), sets_view(list@)),
{
    let mut r = acc;
    let ghost a = sets_view(r@);
    let ghost l = sets_view(list@);
    let ghost es = list.iter().remaining();
    for e in it: list.iter()
        invariant
            it.seq() == es,
            a == sets_view(acc@),
            l == sets_view(list@),
            forall|i: int|
                0 <= i < es.len() ==> list@.contains_key(*(#[trigger] es[i]).0) && list@[*es[i].0]
                    == *es[i].1,
            forall|k: u64|
                #![trigger r@.contains_key(k)]
                r@.contains_key(k) <==> (a.contains_key(k) || seen_key(es, it.index() as int, k)),
            forall|k: u64|
                #![trigger r@[k]]
                r@.contains_key(k) ==> r@[k]@ == entry(a, k).union(
                    if seen_key(es, it.index() as int, k) {
                        l[k]
                    } else {
                        Set::empty()
                    },
                ),
    {
        let (k, vals) = e;
        let ghost n = it.index() as int;
        assert(es[n] == e);
        assert(list@.contains_key(*k) && list@[*k] == *vals);
        let next = match r.remove(k) {
            Some(set) => add_all(set, vals),
            None => copy_set(vals),
        };
        r.insert(*k, next);
        assert(seen_key(es, n + 1, *k));
        assert forall|j: u64| #![trigger r@.contains_key(j)]
            r@.contains_key(j) <==> (a.contains_key(j) || seen_key(es, n + 1, j)) by {
            if seen_key(es, n + 1, j) && j != *k {
                let i = choose|i: int| 0 <= i < n + 1 && *(#[trigger] es[i]).0 == j;
                assert(seen_key(es, n, j));
            }
            if seen_key(es, n, j) {
                let i = choose|i: int| 0 <= i < n && *(#[trigger] es[i]).0 == j;
                assert(seen_key(es, n + 1, j));
            }
        }
        assert forall|j: u64| #![trigger r@[j]]
            r@.contains_key(j) implies r@[j]@ == entry(a, j).union(
                if seen_key(es, n + 1, j) {
                    l[j]
                } else {
                    Set::empty()
                },
            ) by {
            if j != *k {
                if seen_key(es, n + 1, j) {
                    let i = choose|i: int| 0 <= i < n + 1 && *(#[trigger] es[i]).0 == j;
                    assert(seen_key(es, n, j));
                }
                if seen_key(es, n, j) {
                    let i = choose|i: int| 0 <= i < n && *(#[trigger] es[i]).0 == j;
                    assert(seen_key(es, n + 1, j));
                }
            } else {
                assert(l[j] == vals@);
                if seen_key(es, n, j) {
                    assert(entry(a, j).union(l[j]).union(l[j]) =~= entry(a, j).union(l[j]));
                } else {
                    assert(entry(a, j).union(Set::<u64>::empty()) =~= entry(a, j));
                }
            }
        }
    }
    assert forall|k: u64| seen_key(es, es.len() as int, k) <==> list@.contains_key(k) by {
        if list@.contains_key(k) {
            assert(es.contains((&k, &list@[k])));
            let i = choose|i: int| 0 <= i < es.len() && es[i] == (&k, &list@[k]);
            assert(*es[i].0 == k);
        }
    }
    assert(sets_view(r@) =~~= union_maps(a, l)) by {
        assert forall|k: u64| #[trigger] sets_view(r@).contains_key(k) == union_maps(a, l).contains_key(k) by {}
        assert forall|k: u64| sets_view(r@).contains_key(k) implies #[trigger] sets_view(r@)[k] =~= union_maps(a, l)[k] by {
            assert(r@.contains_key(k));
            if !seen_key(es, es.len() as int, k) {
                assert(entry(l, k) =~= Set::<u64>::empty());
            }
        }
    }
    r
}

fn asset_back_references(a: &OutputAsset) -> (r: HashMap<u64, HashSet<u64>>)
    ensures
        sets_view(r@) =~~= spec_back_references(seq![*a]),
{
    let mut r: HashMap<u64, HashSet<u64>> = HashMap::new();
    let mut j: usize = 0;
    while j < a.references.len()
        invariant
            j <= a.references.len(),
            forall|k: u64|
                #[trigger] r@.contains_key(k) <==> exists|i: int|
                    0 <= i < j && a.references@[i] == k,
            forall|k: u64| #[trigger] r@.contains_key(k) ==> r@[k]@ == set![a.id],
        decreases a.references.len() - j,
    {
        let mut s: HashSet<u64> = HashSet::new();
        s.insert(a.id);
        assert(s@ =~= set![a.id]);
        let k = a.references[j];
        r.insert(k, s);
        assert forall|x: u64|
            #[trigger] r@.contains_key(x) <==> exists|i: int| 0 <= i < j + 1 && a.references@[i] == x by {
            if x == k {
                assert(a.references@[j as int] == x);
            }
        }
        j = j + 1;
    }
    let ghost s1 = seq![*a];
    assert forall|k: u64| #[trigger] referenced_in(s1, k) == r@.contains_key(k) by {
        assert(s1[0] == *a);
        if a.references@.contains(k) {
            let i = choose|i: int| 0 <= i < a.references@.len() && a.references@[i] == k;
        }
    }
    assert forall|k: u64| r@.contains_key(k) implies #[trigger] referrers(s1, k) =~= set![a.id] by {
        assert(s1[0] == *a);
        let i = choose|i: int| 0 <= i < a.references@.len() && a.references@[i] == k;
        assert(a.references@.contains(k));
    }
    r
}

fn back_references_of(g: &AggregatedGraph) -> (r: HashMap<u64, HashSet<u64>>)
    ensures
        sets_view(r@) =~~= spec_back_references(graph_assets(*g)),
    decreases g,
{
    match g {
        AggregatedGraph::Asset(a) => asset_back_references(a),
        AggregatedGraph::Children(v) => {
            let mut acc: HashMap<u64, HashSet<u64>> = HashMap::new();
            let mut i: usize = 0;
            proof {
                assert(children_assets(v@.take(0)) =~= Seq::<OutputAsset>::empty());
                assert(sets_view(acc@) =~~= spec_back_references(Seq::<OutputAsset>::empty())) by {
                    assert forall|k: u64| !referenced_in(Seq::<OutputAsset>::empty(), k) by {}
                }
            }
            while i < v.len()
                invariant
                    *g == AggregatedGraph::Children(*v),
                    i <= v.len(),
                    sets_view(acc@) =~~= spec_back_references(children_assets(v@.take(i as int))),
                decreases v.len() - i,
            {
                proof {
                    assert(decreases_to!(*g => (*g)->Children_0));
                    assert(decreases_to!(*v => v[i as int]));
                }
                let list = back_references_of(&v[i]);
                acc = merge(acc, &list);
                proof {
                    assert(v@.take(i + 1).drop_last() =~= v@.take(i as int));
                    assert(v@.take(i + 1).last() == v@[i as int]);
                    law_back_references_concat(
                        children_assets(v@.take(i as int)),
                        graph_assets(v@[i as int]),
                    );
                }
                i = i + 1;
            }
            assert(v@.take(v.len() as int) =~= v@);
            acc
        },
    }
}

/// The back references of the assets of an aggregated graph: each asset that
/// some asset of the graph references, mapped to the set of exactly those assets
/// of the graph that reference it.
pub fn compute_back_references(aggregated: &AggregatedGraph) -> (r: ReferencesList)
    ensures
        r@ =~~= spec_back_references(graph_assets(*aggregated)),
{
    ReferencesList { referenced_by: back_references_of(aggregated) }
}

/// `order` walks the keys of `m`: each key once.
pub open spec fn is_walk_order(order: Seq<u64>, m: Map<u64, Set<u64>>) -> bool {
    &&& order.no_duplicates()
    &&& order.to_set() == m.dom()
}

/// The keys of `order` with the sizes of their sets in `m`.
pub open spec fn sized_entries(order: Seq<u64>, m: Map<u64, Set<u64>>) -> Seq<(u64, usize)> {
    order.map_values(|k: u64| (k, m[k].len() as usize))
}

/// The index restricted to the keys that the selection picks when the keys of the
/// index are offered in the order `order`.
pub open spec fn spec_top_of(order: Seq<u64>, m: Map<u64, Set<u64>>) -> Map<u64, Set<u64>> {
    m.restrict(entry_keys(spec_select_top(sized_entries(order, m))).to_set())
}

/// The selection keeps entries of the index, as many as the index holds but at
/// most [`TOP_COUNT`].
pub proof fn law_top_of_size(order: Seq<u64>, m: Map<u64, Set<u64>>)
    requires
        is_walk_order(order, m),
    ensures
        spec_top_of(order, m).submap_of(m),
        spec_top_of(order, m).dom().finite(),
        spec_top_of(order, m).dom().len() == if m.dom().len() < TOP_COUNT {
            m.dom().len()
        } else {
            TOP_COUNT as nat
        },
{
    broadcast use vstd::multiset::group_multiset_axioms;

    let es = sized_entries(order, m);
    let sel = entry_keys(spec_select_top(es));
    assert(entry_keys(es) =~= order);
    law_select_top(es);
    law_select_top_distinct_keys(es);
    sel.unique_seq_to_set();
    order.unique_seq_to_set();
    assert(sel.to_set().subset_of(m.dom())) by {
        assert forall|k: u64| sel.to_set().contains(k) implies m.dom().contains(k) by {
            assert(sel.contains(k));
            assert(sel.to_multiset().count(k) > 0);
            assert(order.contains(k));
        }
    }
    assert(spec_top_of(order, m).dom() =~= sel.to_set());
    assert(es.len() == order.len());
}

/// An index with at most [`TOP_COUNT`] entries is kept whole.
pub proof fn law_top_of_small(order: Seq<u64>, m: Map<u64, Set<u64>>)
    requires
        is_walk_order(order, m),
        m.dom().len() <= TOP_COUNT,
    ensures
        spec_top_of(order, m) == m,
{
    law_top_of_size(order, m);
    order.unique_seq_to_set();
    let t = spec_top_of(order, m);
    assert(t.dom().subset_of(m.dom()));
    vstd::set_lib::lemma_subset_equality(t.dom(), m.dom());
    assert(t =~= m);
}

/// Selecting the most referenced assets twice selects nothing more: whatever order
/// the first result is walked in, the second selection gives it back.
pub proof fn law_top_references_idempotent(
    order: Seq<u64>,
    order2: Seq<u64>,
    m: Map<u64, Set<u64>>,
)
    requires
        is_walk_order(order, m),
        is_walk_order(order2, spec_top_of(order, m)),
    ensures
        spec_top_of(order2, spec_top_of(order, m)) == spec_top_of(order, m),
{
    law_top_of_size(order, m);
    law_top_of_small(order2, spec_top_of(order, m));
}

/// The most referenced assets of an index: its keys are offered, with the sizes of
/// their sets, in the order the index is walked, and the result keeps the entries
/// of the selected keys. Whatever that order, the result is part of the index and
/// holds as many entries as the index, but at most [`TOP_COUNT`].
pub fn top_references(list: &ReferencesList) -> (r: ReferencesList)
    ensures
        exists|order: Seq<u64>| is_walk_order(order, list@) && r@ =~~= spec_top_of(order, list@),
        r@.submap_of(list@),
        r@.dom().len() == if list@.dom().len() < TOP_COUNT {
            list@.dom().len()
        } else {
            TOP_COUNT as nat
        },
        list@.dom().len() <= TOP_COUNT ==> r@ =~~= list@,
{
    let m = &list.referenced_by;
    let ghost lv = list@;
    let ghost es = m.iter().remaining();
    let ghost order = es.map_values(|p: (&u64, &HashSet<u64>)| *p.0);
    let mut entries: Vec<(u64, usize)> = Vec::new();
    for e in it: m.iter()
        invariant
            it.seq() == es,
            lv == list@,
            lv == sets_view(m@),
            order == es.map_values(|p: (&u64, &HashSet<u64>)| *p.0),
            forall|i: int|
                0 <= i < es.len() ==> m@.contains_key(*(#[trigger] es[i]).0) && m@[*es[i].0] == *es[i].1,
            entries@ == sized_entries(order.take(it.index() as int), lv),
    {
        let n = e.1.len();
        let ghost i = it.index() as int;
        assert(es[i] == e);
        assert(n == e.1@.len());
        assert(m@.contains_key(*e.0) && m@[*e.0] == *e.1);
        assert(lv[*e.0] == e.1@);
        entries.push((*e.0, n));
        assert(order.take(i + 1) =~= order.take(i).push(*e.0));
        assert(entries@ =~= sized_entries(order.take(i + 1), lv));
    }
    assert(order.take(es.len() as int) =~= order);
    // the walk order visits each key of the index once
    assert(order.no_duplicates()) by {
        assert forall|i: int, j: int| 0 <= i < order.len() && 0 <= j < order.len() && i != j implies order[i] != order[j] by {
            if order[i] == order[j] {
                assert(es[i] == (&order[i], &m@[order[i]]));
                assert(es[j] == (&order[j], &m@[order[j]]));
            }
        }
    }
    assert(order.to_set() =~= lv.dom()) by {
        assert forall|k: u64| order.to_set().contains(k) <==> lv.dom().contains(k) by {
            if lv.dom().contains(k) {
                assert(es.contains((&k, &m@[k])));
                let i = choose|i: int| 0 <= i < es.len() && es[i] == (&k, &m@[k]);
                assert(order[i] == k);
            }
            if order.to_set().contains(k) {
                let i = choose|i: int| 0 <= i < order.len() && order[i] == k;
                assert(es[i].0 == order[i]);
            }
        }
    }
    let top = select_top(&entries);
    let ghost sel = entry_keys(top@);
    proof {
        assert(entry_keys(sized_entries(order, lv)) =~= order);
        law_select_top(sized_entries(order, lv));
        law_select_top_distinct_keys(sized_entries(order, lv));
    }
    let mut out: HashMap<u64, HashSet<u64>> = HashMap::new();
    let mut i: usize = 0;
    while i < top.len()
        invariant
            i <= top.len(),
            lv == list@,
            lv == sets_view(m@),
            sel == entry_keys(top@),
            top@ == spec_select_top(sized_entries(order, lv)),
            sel.to_multiset().subset_of(order.to_multiset()),
            order.to_set() == lv.dom(),
            sets_view(out@) =~~= lv.restrict(sel.take(i as int).to_set()),
        decreases top.len() - i,
    {
        let k = top[i].0;
        assert(sel[i as int] == k);
        assert(order.contains(k)) by {
            broadcast use vstd::multiset::group_multiset_axioms;
            assert(sel.to_multiset().count(k) > 0);
        }
        assert(lv.dom().contains(k));
        let ghost before = sets_view(out@);
        match m.get(&k) {
            Some(s) => {
                let c = copy_set(s);
                out.insert(k, c);
                assert(sets_view(out@) =~~= before.insert(k, lv[k]));
            },
            None => {
                assert(false);
            },
        }
        assert(sel.take(i + 1).to_set() =~= sel.take(i as int).to_set().insert(k)) by {
            assert(sel.take(i + 1) =~= sel.take(i as int).push(k));
            sel.take(i as int).lemma_push_to_set_commute(k);
        }
        assert(lv.restrict(sel.take(i as int).to_set().insert(k)) =~~= lv.restrict(
            sel.take(i as int).to_set(),
        ).insert(k, lv[k]));
        i = i + 1;
    }
    assert(sel.take(top.len() as int) =~= sel);
    let r = ReferencesList { referenced_by: out };
    proof {
        assert(r@ =~~= spec_top_of(order, lv));
        law_top_of_size(order, lv);
        if lv.dom().len() <= TOP_COUNT {
            law_top_of_small(order, lv);
        }
    }
    r
}

/// The result of [`top_references`] keeps the most referenced assets: an asset of
/// the index that is left out is referenced by no more assets than any asset that
/// is kept, and then five are kept.
pub proof fn law_top_references_most_referenced(order: Seq<u64>, m: Map<u64, Set<u64>>, k: u64, kept: u64)
    requires
        is_walk_order(order, m),
        forall|x: u64| m.contains_key(x) ==> #[trigger] m[x].len() <= usize::MAX,
        m.contains_key(k),
        !spec_top_of(order, m).contains_key(k),
        spec_top_of(order, m).contains_key(kept),
    ensures
        m[k].len() <= m[kept].len(),
        spec_top_of(order, m).dom().len() == TOP_COUNT,
{
    broadcast use vstd::multiset::group_multiset_axioms;

    let es = sized_entries(order, m);
    let sel = spec_select_top(es);
    law_select_top(es);
    law_select_top_largest(es);
    assert(entry_keys(es) =~= order);
    law_select_top_distinct_keys(es);
    assert(order.to_set().contains(k));
    let i = choose|i: int| 0 <= i < order.len() && order[i] == k;
    assert(es[i] == (k, m[k].len() as usize));
    if sel.contains(es[i]) {
        let jj = choose|jj: int| 0 <= jj < sel.len() && sel[jj] == es[i];
        assert(entry_keys(sel)[jj] == k);
        assert(entry_keys(sel).to_set().contains(k));
    }
    assert(sel.len() == TOP_COUNT);
    // the kept asset is selected with its own size
    assert(entry_keys(sel).to_set().contains(kept));
    let jj = choose|jj: int| 0 <= jj < entry_keys(sel).len() && entry_keys(sel)[jj] == kept;
    assert(sel.to_multiset().count(sel[jj]) > 0);
    assert(es.to_multiset().count(sel[jj]) > 0);
    assert(es.contains(sel[jj]));
    let i2 = choose|i2: int| 0 <= i2 < es.len() && es[i2] == sel[jj];
    assert(es[i2] == (order[i2], m[order[i2]].len() as usize));
    assert(m[k].len() as usize <= m[kept].len() as usize);
    // the kept keys are five distinct keys of the index
    entry_keys(sel).unique_seq_to_set();
    assert forall|x: u64| entry_keys(sel).to_set().contains(x) implies m.dom().contains(x) by {
        let a = choose|a: int| 0 <= a < entry_keys(sel).len() && entry_keys(sel)[a] == x;
        assert(sel.to_multiset().count(sel[a]) > 0);
        assert(es.contains(sel[a]));
        let b = choose|b: int| 0 <= b < es.len() && es[b] == sel[a];
        assert(order.to_set().contains(order[b]));
    }
    assert(spec_top_of(order, m).dom() =~= entry_keys(sel).to_set());
}

} // verus!
