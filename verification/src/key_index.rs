//! The two-way index of the cache: which key sits in which slot.

use vstd::prelude::*;

verus! {

/// `bimap::BiHashMap`, carried opaquely.
#[verifier::external_type_specification]
#[verifier::external_body]
#[verifier::reject_recursive_types(L)]
#[verifier::reject_recursive_types(R)]
#[verifier::reject_recursive_types(LS)]
#[verifier::reject_recursive_types(RS)]
pub struct ExBiHashMap<L, R, LS, RS>(bimap::BiHashMap<L, R, LS, RS>);

/// The pairs that a `bimap::BiHashMap` holds, as a map from left to right values.
pub uninterp spec fn bimap_pairs(index: bimap::BiHashMap<u64, usize>) -> Map<u64, usize>;

/// `pairs` after the pair of `left` and `right` has been put in, in place of every pair that had
/// one of the two.
pub open spec fn paired(pairs: Map<u64, usize>, left: u64, right: usize) -> Map<u64, usize> {
    Map::new(
        |k: u64| k == left || (pairs.contains_key(k) && pairs[k] != right),
        |k: u64| if k == left { right } else { pairs[k] },
    )
}

/// `BiHashMap::default`: a bimap without any pair.
#[verifier::external_body]
pub(crate) fn bimap_default() -> (made: bimap::BiHashMap<u64, usize>)
    ensures
        (bimap_pairs(made) == Map::<u64, usize>::empty()),
{
    bimap::BiHashMap::default()
}

/// `BiHashMap::contains_left`: whether some pair has `left` on its left.
#[verifier::external_body]
pub(crate) fn bimap_contains_left(index: &bimap::BiHashMap<u64, usize>, left: u64) -> (found: bool)
    ensures
        found == bimap_pairs(*index).contains_key(left),
{
    index.contains_left(&left)
}

/// `BiHashMap::get_by_left`: the right value that `left` is paired with.
#[verifier::external_body]
pub(crate) fn bimap_get_by_left(index: &bimap::BiHashMap<u64, usize>, left: u64) -> (right: Option<
    usize,
>)
    ensures
        match right {
            Some(r) => bimap_pairs(*index).contains_key(left) && bimap_pairs(*index)[left] == r,
            None => !bimap_pairs(*index).contains_key(left),
        },
{
    index.get_by_left(&left).copied()
}

/// `BiHashMap::get_by_right`: the left value that `right` is paired with.
#[verifier::external_body]
pub(crate) fn bimap_get_by_right(index: &bimap::BiHashMap<u64, usize>, right: usize) -> (left:
    Option<u64>)
    ensures
        match left {
            Some(l) => bimap_pairs(*index).contains_key(l) && bimap_pairs(*index)[l] == right,
            None => forall|l: u64| #[trigger]
                bimap_pairs(*index).contains_key(l) ==> bimap_pairs(*index)[l] != right,
        },
{
    index.get_by_right(&right).copied()
}

/// `BiHashMap::insert`: pairs `left` with `right`; the pairs that had one of the two are gone.
/// What was overwritten is not reported.
#[verifier::external_body]
pub(crate) fn bimap_insert(index: &mut bimap::BiHashMap<u64, usize>, left: u64, right: usize)
    ensures
        bimap_pairs(*final(index)) == paired(bimap_pairs(*old(index)), left, right),
{
    index.insert(left, right);
}

} // verus!
