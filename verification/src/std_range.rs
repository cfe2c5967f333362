use vstd::prelude::*;
use vstd::std_specs::cmp::PartialOrdIs;
use vstd::std_specs::cmp::PartialOrdSpec;

verus! {

/// `RangeInclusive::start` from the standard library: the lower bound
/// of the range. Its documentation leaves the value unspecified once
/// the range has been iterated to exhaustion, so only an unexhausted
/// range is described.
pub assume_specification<Idx>[ core::ops::RangeInclusive::<Idx>::start ](
    r: &core::ops::RangeInclusive<Idx>,
) -> (res: &Idx)
    ensures
        !r@.exhausted ==> *res == r@.start,
;

/// `RangeInclusive::end` from the standard library: the upper bound
/// of the range, unspecified (as for `start`) once the range has been
/// iterated to exhaustion.
pub assume_specification<Idx>[ core::ops::RangeInclusive::<Idx>::end ](
    r: &core::ops::RangeInclusive<Idx>,
) -> (res: &Idx)
    ensures
        !r@.exhausted ==> *res == r@.end,
;

/// `RangeInclusive::is_empty` from the standard library: true when the
/// range yields no item, that is when it has been exhausted or its
/// start is not at most its end (claimed for index types whose
/// comparison behaves as specified).
pub assume_specification<Idx: PartialOrd<Idx>>[ core::ops::RangeInclusive::<Idx>::is_empty ](
    r: &core::ops::RangeInclusive<Idx>,
) -> (res: bool) where Idx: PartialOrd
    ensures
        Idx::obeys_partial_cmp_spec() ==> res == (r@.exhausted
            || !r@.start.is_le(&r@.end)),
;

} // verus!
