//! Statements about sequences that the contracts of the checks share.

use vstd::prelude::*;

verus! {

/// `i` is the first place at which `x` stands in `s`.
pub open spec fn is_first_position<A>(s: Seq<A>, x: A, i: int) -> bool {
    &&& 0 <= i < s.len()
    &&& s[i] == x
    &&& forall|j: int| 0 <= j < i ==> s[j] != x
}

/// The first place at which `x` stands in `s`, if it stands there at all.
pub open spec fn first_position<A>(s: Seq<A>, x: A) -> Option<int> {
    if exists|i: int| is_first_position(s, x, i) {
        Some(choose|i: int| is_first_position(s, x, i))
    } else {
        None
    }
}

/// `i` is the last place at which `x` stands in `s`.
pub open spec fn is_last_position<A>(s: Seq<A>, x: A, i: int) -> bool {
    &&& 0 <= i < s.len()
    &&& s[i] == x
    &&& forall|j: int| i < j < s.len() ==> s[j] != x
}

/// The last place at which `x` stands in `s`, if it stands there at all.
pub open spec fn last_position<A>(s: Seq<A>, x: A) -> Option<int> {
    if exists|i: int| is_last_position(s, x, i) {
        Some(choose|i: int| is_last_position(s, x, i))
    } else {
        None
    }
}

pub proof fn lemma_first_position_found<A>(s: Seq<A>, x: A, i: int)
    requires
        is_first_position(s, x, i),
    ensures
        first_position(s, x) == Some(i),
{
    let k = choose|k: int| is_first_position(s, x, k);
    assert(k == i) by {
        if k < i {
            assert(s[k] != x);
        } else if i < k {
            assert(s[i] != x);
        }
    }
}

pub proof fn lemma_first_position_absent<A>(s: Seq<A>, x: A)
    requires
        forall|j: int| 0 <= j < s.len() ==> s[j] != x,
    ensures
        first_position(s, x) is None,
{
}

/// `x` has a first position in `s` exactly if `s` contains it.
pub proof fn lemma_first_position_contains<A>(s: Seq<A>, x: A)
    ensures
        first_position(s, x) is Some <==> s.contains(x),
        first_position(s, x) matches Some(i) ==> is_first_position(s, x, i),
    decreases s.len(),
{
    if s.contains(x) {
        let k = choose|k: int| 0 <= k < s.len() && s[k] == x;
        lemma_first_position_below(s, x, k);
    }
}

proof fn lemma_first_position_below<A>(s: Seq<A>, x: A, k: int)
    requires
        0 <= k < s.len(),
        s[k] == x,
    ensures
        exists|i: int| is_first_position(s, x, i),
    decreases k,
{
    if forall|j: int| 0 <= j < k ==> s[j] != x {
        assert(is_first_position(s, x, k));
    } else {
        let j = choose|j: int| 0 <= j < k && s[j] == x;
        lemma_first_position_below(s, x, j);
    }
}

pub proof fn lemma_last_position_found<A>(s: Seq<A>, x: A, i: int)
    requires
        is_last_position(s, x, i),
    ensures
        last_position(s, x) == Some(i),
{
    let k = choose|k: int| is_last_position(s, x, k);
    assert(k == i) by {
        if k < i {
            assert(s[i] != x);
        } else if i < k {
            assert(s[k] != x);
        }
    }
}

pub proof fn lemma_last_position_absent<A>(s: Seq<A>, x: A)
    requires
        forall|j: int| 0 <= j < s.len() ==> s[j] != x,
    ensures
        last_position(s, x) is None,
{
}

/// `f` fails at place `i` of `s`, and at no earlier place.
pub open spec fn fails_first_at<A, B, E>(s: Seq<A>, f: spec_fn(A) -> Result<B, E>, i: int) -> bool {
    &&& 0 <= i < s.len()
    &&& f(s[i]) is Err
    &&& forall|j: int| 0 <= j < i ==> f(s[j]) is Ok
}

/// The error of the first item of `s` on which `f` fails, if it fails on any.
pub open spec fn first_failure<A, B, E>(s: Seq<A>, f: spec_fn(A) -> Result<B, E>) -> Option<E> {
    if exists|i: int| fails_first_at(s, f, i) {
        Some(f(s[choose|i: int| fails_first_at(s, f, i)])->Err_0)
    } else {
        None
    }
}

/// What a step keeps of an item: nothing where it fails.
pub open spec fn kept<B, E>(r: Result<Option<B>, E>) -> Option<B> {
    match r {
        Ok(o) => o,
        Err(_) => None,
    }
}

/// What `f` keeps of each item.
pub open spec fn keeper<A, B, E>(f: spec_fn(A) -> Result<Option<B>, E>) -> spec_fn(A) -> Option<B> {
    |a: A| kept(f(a))
}

/// Passes over `s` with a step `f` that fails on an item, skips it or keeps
/// something of it: the error of the first item on which `f` fails, or, if it
/// fails on none, what it keeps, in the order of `s`.
pub open spec fn collect<A, B, E>(s: Seq<A>, f: spec_fn(A) -> Result<Option<B>, E>) -> Result<
    Seq<B>,
    E,
> {
    match first_failure(s, f) {
        Some(e) => Err(e),
        None => Ok(s.filter_map(keeper(f))),
    }
}

pub proof fn lemma_first_failure_found<A, B, E>(
    s: Seq<A>,
    f: spec_fn(A) -> Result<B, E>,
    i: int,
)
    requires
        fails_first_at(s, f, i),
    ensures
        first_failure(s, f) == Some(f(s[i])->Err_0),
{
    let k = choose|k: int| fails_first_at(s, f, k);
    assert(k == i) by {
        if k < i {
            assert(f(s[k]) is Ok);
        } else if i < k {
            assert(f(s[i]) is Ok);
        }
    }
}

pub proof fn lemma_first_failure_absent<A, B, E>(s: Seq<A>, f: spec_fn(A) -> Result<B, E>)
    requires
        forall|j: int| 0 <= j < s.len() ==> f(s[j]) is Ok,
    ensures
        first_failure(s, f) is None,
{
}

/// Where `f` fails nowhere, every item of `s` has an `Ok`.
pub proof fn lemma_first_failure_none<A, B, E>(s: Seq<A>, f: spec_fn(A) -> Result<B, E>)
    requires
        first_failure(s, f) is None,
    ensures
        forall|j: int| 0 <= j < s.len() ==> (#[trigger] f(s[j])) is Ok,
{
    assert forall|j: int| 0 <= j < s.len() implies (#[trigger] f(s[j])) is Ok by {
        if f(s[j]) is Err {
            lemma_fails_first_below(s, f, j);
        }
    }
}

proof fn lemma_fails_first_below<A, B, E>(s: Seq<A>, f: spec_fn(A) -> Result<B, E>, k: int)
    requires
        0 <= k < s.len(),
        f(s[k]) is Err,
    ensures
        exists|i: int| fails_first_at(s, f, i),
    decreases k,
{
    if forall|j: int| 0 <= j < k ==> f(s[j]) is Ok {
        assert(fails_first_at(s, f, k));
    } else {
        let j = choose|j: int| 0 <= j < k && !(f(s[j]) is Ok);
        lemma_fails_first_below(s, f, j);
    }
}

} // verus!
