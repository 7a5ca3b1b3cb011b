//! Text helpers: joining strings with a separator.
use vstd::prelude::*;

verus! {

/// The characters of each string.
pub open spec fn strings(v: Seq<String>) -> Seq<Seq<char>> {
    v.map_values(|s: String| s@)
}

/// `items` joined with `sep` between neighbours.
pub open spec fn join(items: Seq<Seq<char>>, sep: Seq<char>) -> Seq<char>
    decreases items.len(),
{
    if items.len() == 0 {
        Seq::empty()
    } else if items.len() == 1 {
        items[0]
    } else {
        join(items.drop_last(), sep) + sep + items.last()
    }
}

/// Joining puts the separator between neighbours only: nothing joins to
/// nothing, one item to itself, and one more item adds the separator and the item.
pub proof fn law_join(items: Seq<Seq<char>>, x: Seq<char>, sep: Seq<char>)
    ensures
        join(Seq::empty(), sep) == Seq::<char>::empty(),
        join(seq![x], sep) == x,
        items.len() > 0 ==> join(items.push(x), sep) == join(items, sep) + sep + x,
{
    assert(items.push(x).drop_last() =~= items);
}

/// `items` joined with `sep` between neighbours.
pub fn join_strings(items: &Vec<String>, sep: &str) -> (r: String)
    ensures
        r@ == join(strings(items@), sep@),
{
    let mut r = String::new();
    let mut i: usize = 0;
    let ghost all = strings(items@);
    assert(all.take(0) =~= Seq::<Seq<char>>::empty());
    while i < items.len()
        invariant
            i <= items.len(),
            all == strings(items@),
            r@ == join(all.take(i as int), sep@),
        decreases items.len() - i,
    {
        assert(all.take(i + 1).drop_last() =~= all.take(i as int));
        assert(all.take(i + 1).last() == items@[i as int]@);
        if i > 0 {
            r.append(sep);
        } else {
            assert(all.take(1) =~= seq![items@[0]@]);
        }
        r.append(items[i].as_str());
        i = i + 1;
    }
    assert(all.take(items.len() as int) =~= all);
    r
}

} // verus!
