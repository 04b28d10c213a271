//! Searching a sequence for its first element with a property.
use vstd::prelude::*;

verus! {

/// The first element of `s` for which `p` holds, if there is one.
pub open spec fn first_match<T>(s: Seq<T>, p: spec_fn(T) -> bool) -> Option<T>
    decreases s.len(),
{
    if s.len() == 0 {
        None
    } else if p(s[0]) {
        Some(s[0])
    } else {
        first_match(s.drop_first(), p)
    }
}

/// Skipping an element without the property does not change the first match
/// of the remaining suffix.
pub proof fn lemma_first_match_skip<T>(s: Seq<T>, p: spec_fn(T) -> bool, i: int)
    requires
        0 <= i < s.len(),
        !p(s[i]),
    ensures
        first_match(s.subrange(i, s.len() as int), p) == first_match(s.subrange(i + 1, s.len() as int), p),
{
    assert(s.subrange(i, s.len() as int).drop_first() =~= s.subrange(i + 1, s.len() as int));
}

/// An element with the property is the first match of the suffix it starts.
pub proof fn lemma_first_match_hit<T>(s: Seq<T>, p: spec_fn(T) -> bool, i: int)
    requires
        0 <= i < s.len(),
        p(s[i]),
    ensures
        first_match(s.subrange(i, s.len() as int), p) == Some(s[i]),
{
}

/// The whole sequence is its own suffix from index 0; the empty suffix has no match.
pub proof fn lemma_first_match_bounds<T>(s: Seq<T>, p: spec_fn(T) -> bool)
    ensures
        s.subrange(0, s.len() as int) == s,
        first_match(s.subrange(s.len() as int, s.len() as int), p) == None::<T>,
{
    assert(s.subrange(0, s.len() as int) =~= s);
}

/// If the first match exists, it is an element of the sequence with the property,
/// and no earlier element has the property.
pub proof fn lemma_first_match_some<T>(s: Seq<T>, p: spec_fn(T) -> bool)
    ensures
        first_match(s, p) is Some ==> exists|i: int|
            #![trigger s[i]]
            0 <= i < s.len() && p(s[i]) && first_match(s, p) == Some(s[i]) && forall|j: int|
                0 <= j < i ==> !p(#[trigger] s[j]),
        first_match(s, p) is None ==> forall|i: int| 0 <= i < s.len() ==> !p(#[trigger] s[i]),
    decreases s.len(),
{
    if s.len() > 0 && !p(s[0]) {
        lemma_first_match_some(s.drop_first(), p);
        if first_match(s, p) is Some {
            let k = choose|k: int|
                #![trigger s.drop_first()[k]]
                0 <= k < s.drop_first().len() && p(s.drop_first()[k]) && first_match(
                    s.drop_first(),
                    p,
                ) == Some(s.drop_first()[k]) && forall|j: int|
                    0 <= j < k ==> !p(#[trigger] s.drop_first()[j]);
            assert(s[k + 1] == s.drop_first()[k]);
            assert forall|j: int| 0 <= j < k + 1 implies !p(#[trigger] s[j]) by {
                if j > 0 {
                    assert(s[j] == s.drop_first()[j - 1]);
                }
            }
        } else {
            assert forall|i: int| 0 <= i < s.len() implies !p(#[trigger] s[i]) by {
                if i > 0 {
                    assert(s[i] == s.drop_first()[i - 1]);
                }
            }
        }
    }
}


/// Filtering a prefix one element longer adds that element when it has the property.
pub proof fn lemma_filter_step<T>(s: Seq<T>, p: spec_fn(T) -> bool, i: int)
    requires
        0 <= i < s.len(),
    ensures
        s.take(i + 1).filter(p) == (if p(s[i]) {
            s.take(i).filter(p).push(s[i])
        } else {
            s.take(i).filter(p)
        }),
{
    reveal(Seq::filter);
    assert(s.take(i + 1).drop_last() =~= s.take(i));
    assert(s.take(i + 1).last() == s[i]);
}

/// The empty prefix filters to nothing; the full prefix is the sequence.
pub proof fn lemma_filter_ends<T>(s: Seq<T>, p: spec_fn(T) -> bool)
    ensures
        s.take(0).filter(p) == Seq::<T>::empty(),
        s.take(s.len() as int) == s,
{
    reveal(Seq::filter);
    assert(s.take(0) =~= Seq::<T>::empty());
    assert(s.take(s.len() as int) =~= s);
}

} // verus!
