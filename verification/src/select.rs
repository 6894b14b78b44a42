use vstd::prelude::*;

verus! {

/// The items of the first `n` places of `items` whose place is marked in
/// `mask`, in their order.
pub open spec fn masked_prefix<T>(items: Seq<T>, mask: Seq<bool>, n: nat) -> Seq<T>
    decreases n,
{
    if n == 0 {
        Seq::empty()
    } else {
        let kept = masked_prefix(items, mask, (n - 1) as nat);
        if mask[n - 1] {
            kept.push(items[n - 1])
        } else {
            kept
        }
    }
}

/// The items of `items` whose place is marked in `mask`, in their order.
pub open spec fn masked<T>(items: Seq<T>, mask: Seq<bool>) -> Seq<T> {
    masked_prefix(items, mask, items.len())
}

/// The first place marked in `mask`, if any.
pub fn first_match(mask: &Vec<bool>) -> (found: Option<usize>)
    ensures
        found matches Some(i) ==> i < mask.len() && mask@[i as int] && forall|j: int|
            0 <= j < i ==> !#[trigger] mask@[j],
        found is None ==> forall|j: int| 0 <= j < mask.len() ==> !#[trigger] mask@[j],
{
    let n = mask.len();
    for i in 0..n
        invariant
            n == mask.len(),
            forall|j: int| 0 <= j < i ==> !#[trigger] mask@[j],
    {
        if mask[i] {
            return Some(i);
        }
    }
    None
}

/// The items whose place is marked in `mask`, in their order.
pub fn select_masked<T: Copy>(items: &Vec<T>, mask: &Vec<bool>) -> (kept: Vec<T>)
    requires
        items.len() == mask.len(),
    ensures
        kept@ == masked(items@, mask@),
        // the kept items are the items at the marked places, one for each such
        // place, in increasing order of place
        exists|places: Seq<int>|
            {
                &&& places.len() == kept.len()
                &&& forall|p: int|
                    0 <= p < places.len() ==> 0 <= #[trigger] places[p] < items.len() && mask@[places[p]]
                        && kept@[p] == items@[places[p]]
                &&& forall|p: int, q: int|
                    0 <= p < q < places.len() ==> #[trigger] places[p] < #[trigger] places[q]
                &&& forall|k: int| 0 <= k < items.len() && #[trigger] mask@[k] ==> places.contains(k)
            },
{
    let n = items.len();
    let mut kept: Vec<T> = Vec::new();
    for i in 0..n
        invariant
            n == items.len(),
            n == mask.len(),
            kept@ == masked_prefix(items@, mask@, i as nat),
    {
        if mask[i] {
            kept.push(items[i]);
        }
    }
    let ghost places = lemma_masked_places(items@, mask@, n as nat);
    kept
}

/// The selection from the first `n` places holds the items at the marked
/// places among them, one for each such place, in increasing order of place:
/// the returned places witness it.
pub proof fn lemma_masked_places<T>(items: Seq<T>, mask: Seq<bool>, n: nat) -> (places: Seq<int>)
    requires
        n <= items.len(),
        n <= mask.len(),
    ensures
        places.len() == masked_prefix(items, mask, n).len(),
        forall|p: int|
            0 <= p < places.len() ==> 0 <= #[trigger] places[p] < n && mask[places[p]]
                && masked_prefix(items, mask, n)[p] == items[places[p]],
        forall|p: int, q: int| 0 <= p < q < places.len() ==> #[trigger] places[p] < #[trigger] places[q],
        forall|k: int| 0 <= k < n && #[trigger] mask[k] ==> places.contains(k),
    decreases n,
{
    if n == 0 {
        Seq::empty()
    } else {
        let m = (n - 1) as nat;
        let before = lemma_masked_places(items, mask, m);
        let kept = masked_prefix(items, mask, m);
        if mask[m as int] {
            let places = before.push(m as int);
            assert forall|k: int| 0 <= k < n && #[trigger] mask[k] implies places.contains(k) by {
                if k < m {
                    let p = choose|p: int| 0 <= p < before.len() && before[p] == k;
                    assert(places[p] == k);
                } else {
                    assert(places[before.len() as int] == k);
                }
            }
            assert forall|p: int|
                0 <= p < places.len() implies 0 <= #[trigger] places[p] < n && mask[places[p]]
                    && masked_prefix(items, mask, n)[p] == items[places[p]] by {
                if p < before.len() {
                    assert(masked_prefix(items, mask, n)[p] == kept[p]);
                }
            }
            places
        } else {
            assert forall|k: int| 0 <= k < n && #[trigger] mask[k] implies before.contains(k) by {
                assert(k != m);
            }
            before
        }
    }
}

/// Selecting never yields more items than there were.
pub proof fn lemma_masked_len<T>(items: Seq<T>, mask: Seq<bool>, n: nat)
    requires
        n <= items.len(),
    ensures
        masked_prefix(items, mask, n).len() <= n,
    decreases n,
{
    if n > 0 {
        lemma_masked_len(items, mask, (n - 1) as nat);
    }
}

/// Every selected item is an item at a marked place, and every item at a
/// marked place is selected: the selection holds exactly the marked items.
pub proof fn lemma_masked_members<T>(items: Seq<T>, mask: Seq<bool>, n: nat)
    requires
        n <= items.len(),
        n <= mask.len(),
    ensures
        forall|x: T|
            masked_prefix(items, mask, n).contains(x) <==> exists|k: int|
                0 <= k < n && mask[k] && #[trigger] items[k] == x,
    decreases n,
{
    if n > 0 {
        let m = (n - 1) as nat;
        lemma_masked_members(items, mask, m);
        let kept = masked_prefix(items, mask, m);
        assert forall|x: T|
            masked_prefix(items, mask, n).contains(x) <==> exists|k: int|
                0 <= k < n && mask[k] && #[trigger] items[k] == x by {
            if mask[m as int] {
                assert(kept.push(items[m as int]).contains(x) <==> (kept.contains(x) || x == items[m as int])) by {
                    if x == items[m as int] {
                        assert(kept.push(items[m as int])[kept.len() as int] == x);
                    }
                    if kept.push(items[m as int]).contains(x) && x != items[m as int] {
                        let p = choose|p: int| 0 <= p < kept.len() + 1 && kept.push(items[m as int])[p] == x;
                        assert(kept[p] == x);
                    }
                    if kept.contains(x) {
                        let p = choose|p: int| 0 <= p < kept.len() && kept[p] == x;
                        assert(kept.push(items[m as int])[p] == x);
                    }
                }
            }
            if exists|k: int| 0 <= k < n && mask[k] && #[trigger] items[k] == x {
                let k = choose|k: int| 0 <= k < n && mask[k] && #[trigger] items[k] == x;
                if k < m {
                    assert(exists|k: int| 0 <= k < m && mask[k] && #[trigger] items[k] == x);
                }
            }
        }
    }
}

/// With every place marked, the selection is all the items.
pub proof fn lemma_masked_all<T>(items: Seq<T>, mask: Seq<bool>, n: nat)
    requires
        n <= items.len(),
        n <= mask.len(),
        forall|k: int| 0 <= k < n ==> #[trigger] mask[k],
    ensures
        masked_prefix(items, mask, n) == items.take(n as int),
    decreases n,
{
    if n > 0 {
        lemma_masked_all(items, mask, (n - 1) as nat);
        assert(items.take(n as int) =~= items.take(n - 1).push(items[n - 1]));
    } else {
        assert(items.take(0) =~= Seq::<T>::empty());
    }
}

/// With no place marked, the selection is empty.
pub proof fn lemma_masked_none<T>(items: Seq<T>, mask: Seq<bool>, n: nat)
    requires
        n <= mask.len(),
        forall|k: int| 0 <= k < n ==> !#[trigger] mask[k],
    ensures
        masked_prefix(items, mask, n) == Seq::<T>::empty(),
    decreases n,
{
    if n > 0 {
        lemma_masked_none(items, mask, (n - 1) as nat);
    }
}

} // verus!
