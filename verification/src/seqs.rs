//! Facts about sequences that the other modules share.
use vstd::prelude::*;

verus! {

/// Appending adds one member and nothing else.
pub proof fn push_members<A>(list: Seq<A>, item: A)
    ensures
        forall|other: A| #[trigger]
            list.push(item).contains(other) <==> list.contains(other) || other == item,
        list.no_duplicates() && !list.contains(item) ==> list.push(item).no_duplicates(),
{
    let longer = list.push(item);
    assert forall|other: A| #[trigger] longer.contains(other) <==> list.contains(other) || other
        == item by {
        if list.contains(other) {
            let at = choose|at: int| 0 <= at < list.len() && list[at] == other;
            assert(longer[at] == other);
        }
        assert(longer[list.len() as int] == item);
        if longer.contains(other) && other != item {
            let at = choose|at: int| 0 <= at < longer.len() && longer[at] == other;
            assert(list[at] == other);
        }
    }
    if list.no_duplicates() && !list.contains(item) {
        assert forall|i: int, j: int| 0 <= i < j < longer.len() implies longer[i] != longer[j] by {
            if j == list.len() {
                assert(list.contains(list[i]));
            }
        }
    }
}

/// The first items up to and with position `at` are those before it and the item there.
pub proof fn take_one_more<A>(list: Seq<A>, at: int)
    requires
        0 <= at < list.len(),
    ensures
        list.take(at + 1) == list.take(at).push(list[at]),
        forall|other: A| #[trigger]
            list.take(at + 1).contains(other) <==> list.take(at).contains(other) || other
                == list[at],
        list.no_duplicates() ==> !list.take(at).contains(list[at]),
{
    assert(list.take(at + 1) =~= list.take(at).push(list[at]));
    push_members(list.take(at), list[at]);
    if list.no_duplicates() && list.take(at).contains(list[at]) {
        let earlier = choose|earlier: int| 0 <= earlier < at && list.take(at)[earlier] == list[at];
        assert(list[earlier] == list[at]);
    }
}

} // verus!
