//! Places picked out of a list.

use vstd::prelude::*;

verus! {

/// `places` are the places below `n` that are `chosen`, each once, from first to
/// last.
pub open spec fn picks(places: Seq<usize>, n: int, chosen: spec_fn(int) -> bool) -> bool {
    &&& forall|k: int|
        0 <= k < places.len() ==> (#[trigger] places[k]) < n && chosen(places[k] as int)
    &&& forall|j: int, k: int| 0 <= j < k < places.len() ==> places[j] < places[k]
    &&& forall|i: usize|
        #![trigger chosen(i as int)]
        #![trigger places.contains(i)]
        i < n && chosen(i as int) ==> places.contains(i)
}

/// The places below `n + 1` are those below `n`, and `n` where it is chosen.
pub proof fn picks_next(places: Seq<usize>, n: usize, chosen: spec_fn(int) -> bool)
    requires
        picks(places, n as int, chosen),
    ensures
        chosen(n as int) ==> picks(places.push(n), n + 1, chosen),
        !chosen(n as int) ==> picks(places, n + 1, chosen),
{
    let more = places.push(n);
    assert(more[places.len() as int] == n);
    assert forall|i: usize| i < n && chosen(i as int) implies #[trigger] more.contains(i) by {
        assert(places.contains(i));
        let k = choose|k: int| 0 <= k < places.len() && places[k] == i;
        assert(more[k] == i);
    }
}

/// The places picked are told by what is chosen: a place is among them exactly where it is
/// below `n` and chosen, and there is one list of them.
pub proof fn picks_are_unique(
    places: Seq<usize>,
    others: Seq<usize>,
    n: int,
    chosen: spec_fn(int) -> bool,
    i: usize,
)
    requires
        picks(places, n, chosen),
        picks(others, n, chosen),
    ensures
        places.contains(i) <==> i < n && chosen(i as int),
        places == others,
{
    if places.contains(i) {
        let k = choose|k: int| 0 <= k < places.len() && places[k] == i;
        assert(places[k] < n);
    }
    same_places(places, others, n, chosen, places.len() as int);
    same_places(others, places, n, chosen, others.len() as int);
    assert(places =~= others);
}

proof fn same_places(
    places: Seq<usize>,
    others: Seq<usize>,
    n: int,
    chosen: spec_fn(int) -> bool,
    upto: int,
)
    requires
        picks(places, n, chosen),
        picks(others, n, chosen),
        0 <= upto <= places.len(),
    ensures
        upto <= others.len(),
        forall|k: int| 0 <= k < upto ==> places[k] == others[k],
    decreases upto,
{
    if upto > 0 {
        let k = upto - 1;
        same_places(places, others, n, chosen, k);
        let p = places[k];
        assert(chosen(p as int) && p < n);
        assert(others.contains(p));
        let j = choose|j: int| 0 <= j < others.len() && others[j] == p;
        if j < k {
            assert(places[j] == others[j]);
            assert(places[j] < places[k]);
        } else if j > k {
            let q = others[k];
            assert(q < n && chosen(q as int));
            assert(others[k] < others[j]);
            assert(places.contains(q));
            let m = choose|m: int| 0 <= m < places.len() && places[m] == q;
            if m < k {
                assert(others[m] == places[m]);
                assert(others[m] < others[k]);
            } else if m > k {
                assert(places[k] < places[m]);
            }
        }
    }
}

}
