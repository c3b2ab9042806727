//! Which of the duplicated outputs of an adapter is the capture source.
use vstd::prelude::*;

verus! {

/// The bit of a monitor's flags that marks the primary monitor.
pub const MONITORINFOF_PRIMARY: u32 = 1;

/// Whether the flags of a monitor mark it as the primary one.
pub open spec fn is_primary(monitor_flags: u32) -> bool {
    monitor_flags & MONITORINFOF_PRIMARY != 0
}

/// Whether an output is the primary one, by the flags of its monitor.
pub fn output_is_primary(monitor_flags: u32) -> (primary: bool)
    ensures
        primary == is_primary(monitor_flags),
        primary == (monitor_flags % 2 == 1),
{
    assert((monitor_flags & 1 != 0) == (monitor_flags % 2 == 1)) by (bit_vector);
    (monitor_flags & MONITORINFOF_PRIMARY) != 0
}

/// How many of the outputs are not primary.
pub open spec fn secondary_count(primary: Seq<bool>) -> nat
    decreases primary.len(),
{
    if primary.len() == 0 {
        0
    } else {
        secondary_count(primary.drop_last()) + if primary.last() {
            0nat
        } else {
            1nat
        }
    }
}

/// Whether output `i` is capture source `cs_index`, where `primary` says of each output whether
/// it is primary: source 0 is the first primary output, and source `n > 0` the `n`-th output that
/// is not primary.
pub open spec fn is_capture_source(primary: Seq<bool>, cs_index: nat, i: int) -> bool {
    &&& 0 <= i < primary.len()
    &&& if cs_index == 0 {
        primary[i] && forall|j: int| 0 <= j < i ==> !primary[j]
    } else {
        !primary[i] && secondary_count(primary.take(i)) == cs_index - 1
    }
}

/// Whether none of the outputs is capture source `cs_index`.
pub open spec fn lacks_capture_source(primary: Seq<bool>, cs_index: nat) -> bool {
    forall|i: int| !#[trigger] is_capture_source(primary, cs_index, i)
}

/// Finds the output that is capture source `cs_index`.
pub fn get_capture_source(primary: &Vec<bool>, cs_index: usize) -> (source: Option<usize>)
    ensures
        match source {
            Some(i) => is_capture_source(primary@, cs_index as nat, i as int),
            None => lacks_capture_source(primary@, cs_index as nat),
        },
{
    if cs_index == 0 {
        let mut i: usize = 0;
        while i < primary.len()
            invariant
                i <= primary@.len(),
                cs_index == 0,
                forall|j: int| 0 <= j < i ==> !primary@[j],
            decreases primary@.len() - i,
        {
            if primary[i] {
                return Some(i);
            }
            i += 1;
        }
        None
    } else {
        let mut skipped: usize = 0;
        let mut i: usize = 0;
        while i < primary.len()
            invariant
                i <= primary@.len(),
                0 < cs_index,
                skipped == secondary_count(primary@.take(i as int)),
                skipped < cs_index,
                skipped <= i,
                forall|j: int| 0 <= j < i ==> !#[trigger] is_capture_source(primary@, cs_index as nat, j),
            decreases primary@.len() - i,
        {
            assert(primary@.take(i + 1).drop_last() == primary@.take(i as int));
            assert(primary@.take(i + 1).last() == primary@[i as int]);
            if !primary[i] {
                if skipped == cs_index - 1 {
                    return Some(i);
                }
                skipped += 1;
            }
            i += 1;
        }
        None
    }
}

/// Looking at one more output adds one to the count where it is not primary.
proof fn lemma_secondary_count_step(primary: Seq<bool>, i: int)
    requires
        0 <= i < primary.len(),
    ensures
        secondary_count(primary.take(i + 1)) == secondary_count(primary.take(i)) + if primary[i] {
            0nat
        } else {
            1nat
        },
{
    assert(primary.take(i + 1).drop_last() == primary.take(i));
}

/// The count does not fall as more outputs are looked at.
proof fn lemma_secondary_count_grows(primary: Seq<bool>, i: int, j: int)
    requires
        0 <= i <= j <= primary.len(),
    ensures
        secondary_count(primary.take(i)) <= secondary_count(primary.take(j)),
    decreases j - i,
{
    if i < j {
        lemma_secondary_count_grows(primary, i, j - 1);
        lemma_secondary_count_step(primary, j - 1);
    }
}

/// At most one output is capture source `cs_index`.
pub proof fn law_capture_source_is_unique(primary: Seq<bool>, cs_index: nat, i: int, j: int)
    requires
        is_capture_source(primary, cs_index, i),
        is_capture_source(primary, cs_index, j),
    ensures
        i == j,
{
    if i < j {
        lemma_secondary_count_step(primary, i);
        lemma_secondary_count_grows(primary, i + 1, j);
    } else if j < i {
        lemma_secondary_count_step(primary, j);
        lemma_secondary_count_grows(primary, j + 1, i);
    }
}

/// No output is two capture sources.
pub proof fn law_capture_sources_are_distinct(primary: Seq<bool>, a: nat, b: nat, i: int)
    requires
        is_capture_source(primary, a, i),
        is_capture_source(primary, b, i),
    ensures
        a == b,
{
}

/// Every output that is not primary is the capture source after those of the outputs before it
/// that are not primary; a primary output with no primary output before it is capture source 0.
pub proof fn law_outputs_can_be_captured(primary: Seq<bool>, i: int)
    requires
        0 <= i < primary.len(),
        primary[i] ==> forall|j: int| 0 <= j < i ==> !primary[j],
    ensures
        is_capture_source(
            primary,
            if primary[i] {
                0
            } else {
                secondary_count(primary.take(i)) + 1
            },
            i,
        ),
{
}

/// A capture source found among the first outputs is the same among all of them, so the search
/// may stop at it.
pub proof fn law_search_may_stop(first: Seq<bool>, primary: Seq<bool>, cs_index: nat, i: int)
    requires
        first.len() <= primary.len(),
        first == primary.take(first.len() as int),
        0 <= i < first.len(),
    ensures
        is_capture_source(first, cs_index, i) == is_capture_source(primary, cs_index, i),
{
    assert forall|j: int| 0 <= j < first.len() implies first[j] == primary[j] by {
        assert(first[j] == primary.take(first.len() as int)[j]);
    }
    assert(first.take(i) == primary.take(i));
}

/// The count is that of the outputs which are not primary.
pub proof fn law_secondary_outputs_are_counted(primary: Seq<bool>)
    ensures
        secondary_count(primary) == primary.filter(|p: bool| !p).len(),
    decreases primary.len(),
{
    reveal(Seq::filter);
    if primary.len() > 0 {
        law_secondary_outputs_are_counted(primary.drop_last());
    }
}

/// An output is capture source 0 if and only if it is the first that is primary, and capture source
/// `n > 0` if and only if it is not primary and `n - 1` of those before it are not.
pub proof fn law_capture_source_goes_by_order(primary: Seq<bool>, cs_index: nat, i: int)
    requires
        0 <= i < primary.len(),
    ensures
        cs_index == 0 ==> (is_capture_source(primary, cs_index, i) <==> primary[i] && forall|j: int|
            0 <= j < i ==> !primary[j]),
        cs_index > 0 ==> (is_capture_source(primary, cs_index, i) <==> !primary[i] && primary.take(
            i,
        ).filter(|p: bool| !p).len() == cs_index - 1),
{
    law_secondary_outputs_are_counted(primary.take(i));
}

/// A monitor is the primary one if and only if its flags are odd.
pub proof fn law_primary_monitor_has_odd_flags(monitor_flags: u32)
    ensures
        is_primary(monitor_flags) <==> monitor_flags % 2 == 1,
{
    assert((monitor_flags & 1 != 0) == (monitor_flags % 2 == 1)) by (bit_vector);
}

} // verus!
