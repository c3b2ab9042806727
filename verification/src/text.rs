//! Text that the system hands out as UTF-16.
use vstd::prelude::*;

verus! {

/// Whether a unit is the first half of a surrogate pair.
pub open spec fn is_high_surrogate(unit: u16) -> bool {
    0xD800 <= unit <= 0xDBFF
}

/// Whether a unit is the second half of a surrogate pair.
pub open spec fn is_low_surrogate(unit: u16) -> bool {
    0xDC00 <= unit <= 0xDFFF
}

/// The text that UTF-16 units stand for, with U+FFFD in place of each surrogate that has no
/// partner.
pub open spec fn utf16_lossy(units: Seq<u16>) -> Seq<char>
    decreases units.len(),
{
    if units.len() == 0 {
        Seq::empty()
    } else if !is_high_surrogate(units[0]) && !is_low_surrogate(units[0]) {
        seq![units[0] as char] + utf16_lossy(units.skip(1))
    } else if is_high_surrogate(units[0]) && units.len() > 1 && is_low_surrogate(units[1]) {
        seq![(0x10000 + (units[0] - 0xD800) * 0x400 + (units[1] - 0xDC00)) as char]
            + utf16_lossy(units.skip(2))
    } else {
        seq!['\u{FFFD}'] + utf16_lossy(units.skip(1))
    }
}

/// `String::from_utf16_lossy`: decodes UTF-16, each unpaired surrogate giving U+FFFD.
#[verifier::external_body]
fn string_from_utf16_lossy(units: &[u16]) -> (text: String)
    ensures
        text@ == utf16_lossy(units@),
{
    String::from_utf16_lossy(units)
}

/// How many units stand before the first NUL, or in all where there is none.
pub open spec fn c_length(chars: Seq<u16>, n: int) -> bool {
    &&& 0 <= n <= chars.len()
    &&& forall|i: int| 0 <= i < n ==> chars[i] != 0
    &&& n < chars.len() ==> chars[n] == 0
}

/// The text of a NUL-terminated UTF-16 string: what stands from the first NUL on is left out, and
/// a string without NUL is taken whole.
pub fn c_utf16_to_string(chars: &[u16]) -> (text: String)
    ensures
        forall|n: int| #[trigger] c_length(chars@, n) ==> text@ == utf16_lossy(chars@.take(n)),
        exists|n: int| c_length(chars@, n),
        (forall|i: int| 0 <= i < chars@.len() ==> chars@[i] != 0) ==> text@ == utf16_lossy(chars@),
{
    let mut units: Vec<u16> = Vec::new();
    let mut i: usize = 0;
    while i < chars.len() && chars[i] != 0
        invariant
            i <= chars@.len(),
            units@ == chars@.take(i as int),
            forall|j: int| 0 <= j < i ==> chars@[j] != 0,
        decreases chars@.len() - i,
    {
        units.push(chars[i]);
        i += 1;
    }
    assert(c_length(chars@, i as int));
    assert forall|n: int| #[trigger] c_length(chars@, n) implies n == i by {
        if n < i {
            assert(chars@[n] == 0);
        }
    }
    assert(i == chars@.len() ==> units@ =~= chars@);
    string_from_utf16_lossy(units.as_slice())
}

/// A string ends at its first NUL, wherever that stands and whatever stands behind it.
pub proof fn law_text_ends_at_the_first_nul(before: Seq<u16>, behind: Seq<u16>, n: int)
    requires
        forall|i: int| 0 <= i < before.len() ==> before[i] != 0,
    ensures
        c_length(before, n) <==> n == before.len(),
        c_length(before.push(0) + behind, n) <==> n == before.len(),
        (before.push(0) + behind).take(before.len() as int) == before,
{
    let whole = before.push(0) + behind;
    assert forall|i: int| 0 <= i < before.len() implies whole[i] == before[i] && before[i] != 0 by {
    }
    assert(whole[before.len() as int] == 0);
    assert(whole.take(before.len() as int) =~= before);
    if c_length(before, n) && n < before.len() {
        assert(before[n] == 0);
    }
    if c_length(whole, n) {
        if n < before.len() {
            assert(whole[n] == before[n]);
        }
    }
}

} // verus!
