//! Result codes of COM calls.
use vstd::prelude::*;

verus! {

/// Result code of a COM call: negative on failure, zero or positive on success.
pub type HRESULT = i32;

/// `0x887A0002`: an enumeration has no item with the index asked for.
pub const DXGI_ERROR_NOT_FOUND: HRESULT = -2005270526;

/// `0x887A0026`: the duplicated output has become invalid.
pub const DXGI_ERROR_ACCESS_LOST: HRESULT = -2005270490;

/// `0x887A0027`: no new frame came within the timeout.
pub const DXGI_ERROR_WAIT_TIMEOUT: HRESULT = -2005270489;

/// `0x80070005`: access denied.
pub const E_ACCESSDENIED: HRESULT = -2147024891;

/// Whether a result code tells of a failure.
pub fn hr_failed(hr: HRESULT) -> (failed: bool)
    ensures
        failed == (hr < 0),
{
    hr < 0
}

/// The outcome of a call that gives nothing but its result code.
pub fn hr_result(hr: HRESULT) -> (result: Result<(), HRESULT>)
    ensures
        hr < 0 ==> result == Err::<(), HRESULT>(hr),
        hr >= 0 ==> result == Ok::<(), HRESULT>(()),
{
    if hr_failed(hr) {
        Err(hr)
    } else {
        Ok(())
    }
}

} // verus!
