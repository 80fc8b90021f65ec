//! Mapping a sequence item by item, where the first item that fails ends
//! the whole mapping.

use vstd::prelude::*;

verus! {

/// Applies `f` to each item together with its position. The result is the
/// sequence of what `f` gave, or the failure of the first item on which
/// `f` failed.
pub open spec fn try_map<A, B, E>(items: Seq<A>, f: spec_fn(int, A) -> Result<B, E>) -> Result<
    Seq<B>,
    E,
>
    decreases items.len(),
{
    if items.len() == 0 {
        Ok(Seq::empty())
    } else {
        match try_map(items.drop_last(), f) {
            Err(e) => Err(e),
            Ok(before) => match f(items.len() - 1, items.last()) {
                Ok(b) => Ok(before.push(b)),
                Err(e) => Err(e),
            },
        }
    }
}

/// Where the mapping succeeds, every item was mapped, each to what stands
/// at its position in the result.
pub proof fn lemma_try_map_ok<A, B, E>(items: Seq<A>, f: spec_fn(int, A) -> Result<B, E>)
    requires
        try_map(items, f) is Ok,
    ensures
        try_map(items, f)->Ok_0.len() == items.len(),
        forall|i: int|
            0 <= i < items.len() ==> #[trigger] f(i, items[i]) == Ok::<B, E>(
                try_map(items, f)->Ok_0[i],
            ),
    decreases items.len(),
{
    if items.len() > 0 {
        let head = items.drop_last();
        lemma_try_map_ok(head, f);
        let out = try_map(items, f)->Ok_0;
        assert forall|i: int| 0 <= i < items.len() implies #[trigger] f(i, items[i]) == Ok::<B, E>(
            out[i],
        ) by {
            if i < head.len() {
                assert(f(i, head[i]) == Ok::<B, E>(try_map(head, f)->Ok_0[i]));
            }
        }
    }
}

/// Where the mapping fails, the failure is that of the first item on which
/// `f` fails.
pub proof fn lemma_try_map_err<A, B, E>(items: Seq<A>, f: spec_fn(int, A) -> Result<B, E>)
    requires
        try_map(items, f) is Err,
    ensures
        exists|k: int|
            {
                &&& 0 <= k < items.len()
                &&& #[trigger] f(k, items[k]) == Err::<B, E>(try_map(items, f)->Err_0)
                &&& forall|j: int| 0 <= j < k ==> (#[trigger] f(j, items[j])) is Ok
            },
    decreases items.len(),
{
    let head = items.drop_last();
    if try_map(head, f) is Err {
        lemma_try_map_err(head, f);
        let k = choose|k: int|
            {
                &&& 0 <= k < head.len()
                &&& #[trigger] f(k, head[k]) == Err::<B, E>(try_map(head, f)->Err_0)
                &&& forall|j: int| 0 <= j < k ==> (#[trigger] f(j, head[j])) is Ok
            };
        assert(f(k, items[k]) == Err::<B, E>(try_map(items, f)->Err_0));
        assert forall|j: int| 0 <= j < k implies (#[trigger] f(j, items[j])) is Ok by {
            assert(f(j, head[j]) is Ok);
        }
    } else {
        lemma_try_map_ok(head, f);
        let k = items.len() - 1;
        assert(f(k, items[k]) == Err::<B, E>(try_map(items, f)->Err_0));
        assert forall|j: int| 0 <= j < k implies (#[trigger] f(j, items[j])) is Ok by {
            assert(f(j, head[j]) is Ok);
        }
    }
}

/// The mapping succeeds exactly if `f` succeeds on every item.
pub proof fn lemma_try_map_succeeds<A, B, E>(items: Seq<A>, f: spec_fn(int, A) -> Result<B, E>)
    ensures
        try_map(items, f) is Ok <==> forall|i: int|
            0 <= i < items.len() ==> (#[trigger] f(i, items[i])) is Ok,
    decreases items.len(),
{
    if try_map(items, f) is Ok {
        lemma_try_map_ok(items, f);
    } else {
        lemma_try_map_err(items, f);
    }
}

/// The mapping of one more item, in terms of the mapping of the items
/// before it.
pub proof fn lemma_try_map_step<A, B, E>(
    items: Seq<A>,
    f: spec_fn(int, A) -> Result<B, E>,
    i: int,
)
    requires
        0 <= i < items.len(),
    ensures
        try_map(items.take(i + 1), f) == match try_map(items.take(i), f) {
            Err(e) => Err::<Seq<B>, E>(e),
            Ok(before) => match f(i, items[i]) {
                Ok(b) => Ok(before.push(b)),
                Err(e) => Err(e),
            },
        },
{
    assert(items.take(i + 1).drop_last() =~= items.take(i));
}

/// A failure among the first items is the failure of the whole mapping.
pub proof fn lemma_try_map_fails<A, B, E>(
    items: Seq<A>,
    f: spec_fn(int, A) -> Result<B, E>,
    n: int,
)
    requires
        0 <= n <= items.len(),
        try_map(items.take(n), f) is Err,
    ensures
        try_map(items, f) == try_map(items.take(n), f),
    decreases items.len() - n,
{
    if n < items.len() {
        lemma_try_map_step(items, f, n);
        lemma_try_map_fails(items, f, n + 1);
    } else {
        assert(items.take(n) =~= items);
    }
}

/// The mapping of the selected ones among one more item, in terms of the
/// mapping of the selected ones among the items before it.
pub proof fn lemma_try_map_selected_step<A, B, C, E>(
    items: Seq<A>,
    select: spec_fn(A) -> Option<B>,
    f: spec_fn(int, B) -> Result<C, E>,
    i: int,
)
    requires
        0 <= i < items.len(),
    ensures
        try_map(items.take(i + 1).filter_map(select), f) == match select(items[i]) {
            None => try_map(items.take(i).filter_map(select), f),
            Some(b) => match try_map(items.take(i).filter_map(select), f) {
                Err(e) => Err::<Seq<C>, E>(e),
                Ok(before) => match f(items.take(i).filter_map(select).len() as int, b) {
                    Ok(c) => Ok(before.push(c)),
                    Err(e) => Err(e),
                },
            },
        },
{
    let before = items.take(i).filter_map(select);
    let after = items.take(i + 1).filter_map(select);
    items.lemma_filter_map_take_succ(select, i);
    match select(items[i]) {
        None => {
            assert(after =~= before);
        },
        Some(b) => {
            assert(after =~= before.push(b));
            assert(after.drop_last() =~= before);
        },
    }
}

/// A failure among the selected ones of the first items is the failure of
/// the mapping of all the selected ones.
pub proof fn lemma_try_map_selected_fails<A, B, C, E>(
    items: Seq<A>,
    select: spec_fn(A) -> Option<B>,
    f: spec_fn(int, B) -> Result<C, E>,
    n: int,
)
    requires
        0 <= n <= items.len(),
        try_map(items.take(n).filter_map(select), f) is Err,
    ensures
        try_map(items.filter_map(select), f) == try_map(items.take(n).filter_map(select), f),
    decreases items.len() - n,
{
    if n < items.len() {
        lemma_try_map_selected_step(items, select, f, n);
        lemma_try_map_selected_fails(items, select, f, n + 1);
    } else {
        assert(items.take(n) =~= items);
    }
}

} // verus!
