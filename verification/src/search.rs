//! The first position satisfying a condition: the shape every "stop at the
//! first offending entry" loop in this library has.
use vstd::prelude::*;

verus! {

/// The smallest `i < n` with `p(i)`, if there is one.
pub open spec fn first_index(n: nat, p: spec_fn(int) -> bool) -> Option<int>
    decreases n,
{
    if n == 0 {
        None
    } else {
        match first_index((n - 1) as nat, p) {
            Some(i) => Some(i),
            None => if p(n - 1) {
                Some(n - 1)
            } else {
                None
            },
        }
    }
}

pub proof fn lemma_first_index_none(n: nat, p: spec_fn(int) -> bool)
    requires
        forall|j: int| 0 <= j < n ==> !#[trigger] p(j),
    ensures
        first_index(n, p) is None,
    decreases n,
{
    if n > 0 {
        lemma_first_index_none((n - 1) as nat, p);
    }
}

pub proof fn lemma_first_index_at(n: nat, p: spec_fn(int) -> bool, i: int)
    requires
        0 <= i < n,
        p(i),
        forall|j: int| 0 <= j < i ==> !#[trigger] p(j),
    ensures
        first_index(n, p) == Some(i),
    decreases n,
{
    if i < n - 1 {
        lemma_first_index_at((n - 1) as nat, p, i);
    } else {
        lemma_first_index_none((n - 1) as nat, p);
    }
}

pub proof fn lemma_first_index(n: nat, p: spec_fn(int) -> bool)
    ensures
        match first_index(n, p) {
            Some(i) => 0 <= i < n && p(i) && forall|j: int| 0 <= j < i ==> !#[trigger] p(j),
            None => forall|j: int| 0 <= j < n ==> !#[trigger] p(j),
        },
    decreases n,
{
    if n > 0 {
        lemma_first_index((n - 1) as nat, p);
    }
}


pub proof fn lemma_first_index_ext(n: nat, p: spec_fn(int) -> bool, q: spec_fn(int) -> bool)
    requires
        forall|i: int| 0 <= i < n ==> #[trigger] p(i) == q(i),
    ensures
        first_index(n, p) == first_index(n, q),
    decreases n,
{
    if n > 0 {
        lemma_first_index_ext((n - 1) as nat, p, q);
    }
}

}
