//! First answers among indexed candidates.

use vstd::prelude::*;

verus! {

/// The first answer that `check` gives from index `from` up to `count`.
pub open spec fn first<E>(check: spec_fn(int) -> Option<E>, from: int, count: int) -> Option<E>
    decreases count - from,
{
    if from >= count {
        None
    } else {
        match check(from) {
            Some(answer) => Some(answer),
            None => first(check, from + 1, count),
        }
    }
}

/// The first of two answers.
pub open spec fn either<E>(left: Option<E>, right: Option<E>) -> Option<E> {
    match left {
        Some(answer) => Some(answer),
        None => right,
    }
}

/// Without a first answer no candidate has one.
pub proof fn lemma_none<E>(check: spec_fn(int) -> Option<E>, from: int, count: int)
    requires
        first(check, from, count) is None,
    ensures
        forall|i: int| from <= i < count ==> #[trigger] check(i) is None,
    decreases count - from,
{
    if from < count {
        lemma_none(check, from + 1, count);
    }
}

/// A first answer comes from a candidate before which there is none.
pub proof fn lemma_some<E>(check: spec_fn(int) -> Option<E>, from: int, count: int) -> (at: int)
    requires
        first(check, from, count) is Some,
    ensures
        from <= at < count,
        check(at) == first(check, from, count),
        forall|i: int| from <= i < at ==> #[trigger] check(i) is None,
    decreases count - from,
{
    if check(from) is Some {
        from
    } else {
        let at = lemma_some(check, from + 1, count);
        assert forall|i: int| from <= i < at implies #[trigger] check(i) is None by {}
        at
    }
}

/// Where no candidate answers there is no first answer.
pub proof fn lemma_all_none<E>(check: spec_fn(int) -> Option<E>, from: int, count: int)
    requires
        forall|i: int| from <= i < count ==> #[trigger] check(i) is None,
    ensures
        first(check, from, count) is None,
    decreases count - from,
{
    if from < count {
        lemma_all_none(check, from + 1, count);
    }
}

/// The first answer up to a larger count is the one up to a smaller count, if there is one.
pub proof fn lemma_extend<E>(check: spec_fn(int) -> Option<E>, from: int, count: int)
    requires
        from <= count,
    ensures
        first(check, from, count + 1) == either(first(check, from, count), check(count)),
    decreases count - from,
{
    if from < count {
        lemma_extend(check, from + 1, count);
    } else {
        assert(first(check, from + 1, count + 1) is None);
    }
}

} // verus!
