//! Session-profile defaults that are plain integers.

use vstd::prelude::*;

verus! {

/// Current session-profile format version.
pub const PROFILE_VERSION: u32 = 1;

/// Latency of a device preset that does not name one: 20 ms.
pub fn default_latency_ms() -> (r: u64)
    ensures
        r == 20,
{
    20
}

} // verus!
