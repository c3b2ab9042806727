//! The timeout of a capture.
use vstd::prelude::*;
use vstd::std_specs::cmp::{PartialOrdIs, PartialOrdSpec};

verus! {

/// A signed span of time, counted in milliseconds.
#[derive(Clone, Copy, Debug, PartialEq, Eq, Structural)]
pub struct Duration {
    millis: i64,
}

impl Duration {
    /// The length of the span in milliseconds.
    pub closed spec fn millis(&self) -> int {
        self.millis as int
    }

    /// A span of so many milliseconds.
    pub fn milliseconds(milliseconds: i64) -> (span: Duration)
        ensures
            span.millis() == milliseconds,
    {
        Duration { millis: milliseconds }
    }

    /// How many whole milliseconds the span has.
    pub fn num_milliseconds(&self) -> (milliseconds: i64)
        ensures
            milliseconds == self.millis(),
    {
        self.millis
    }
}

/// The first value if it compares greater than the second, else the second.
pub fn max<T: PartialOrd>(a: T, b: T) -> (greater: T)
    ensures
        exists|first: bool|
            {
                &&& #[trigger] call_ensures(T::gt, (&a, &b), first)
                &&& greater == (if first { a } else { b })
            },
        T::obeys_partial_cmp_spec() ==> greater == (if a.is_gt(&b) { a } else { b }),
{
    if a > b {
        a
    } else {
        b
    }
}

/// The timeout handed to the system for a span of time: negative spans count as zero, and of a
/// longer one the system gets the low 32 bits of its milliseconds.
pub open spec fn spec_timeout_ms(timeout: Duration) -> int {
    if timeout.millis() < 0 {
        0
    } else {
        timeout.millis() % 0x1_0000_0000
    }
}

/// Converts a span of time to the timeout handed to the system.
pub fn timeout_ms(timeout: Duration) -> (ms: u32)
    ensures
        ms == spec_timeout_ms(timeout),
        timeout.millis() < 0 ==> ms == 0,
        timeout.millis() >= 0 ==> ms == timeout.millis() % 0x1_0000_0000,
{
    let whole: i64 = max(timeout.num_milliseconds(), 0i64);
    assert(whole >= 0 ==> (whole as u32) as int == (whole as int) % 0x1_0000_0000) by {
        assert(whole >= 0 ==> whole as u32 == whole % 0x1_0000_0000) by (bit_vector);
    }
    #[verifier::truncate]
    let ms: u32 = whole as u32;
    ms
}

/// A span that is not negative and shorter than 2^32 milliseconds is handed on as it is.
pub proof fn law_timeout_is_exact(timeout: Duration)
    requires
        0 <= timeout.millis() <= u32::MAX,
    ensures
        spec_timeout_ms(timeout) == timeout.millis(),
{
}

/// A negative span counts as none.
pub proof fn law_negative_timeout_is_zero(timeout: Duration)
    requires
        timeout.millis() < 0,
    ensures
        spec_timeout_ms(timeout) == 0,
{
}

/// Of two spans that are not negative, the system gets the same if and only if they differ by whole
/// multiples of 2^32 milliseconds.
pub proof fn law_timeout_is_cut_to_32_bits(a: Duration, b: Duration)
    requires
        a.millis() >= 0,
        b.millis() >= 0,
    ensures
        0 <= spec_timeout_ms(a) <= u32::MAX,
        spec_timeout_ms(a) == spec_timeout_ms(b) <==> (a.millis() - b.millis()) % 0x1_0000_0000 == 0,
{
}

} // verus!
