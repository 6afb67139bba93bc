//! Bits of the FLAGS register. Only the configuration-update bit is
//! interpreted by the driver; the remaining bits are handed to the caller
//! untouched.

use vstd::prelude::*;

verus! {

/// Set while the gauge is in configuration-update mode.
pub const CFGUPMODE: u16 = 1 << 4;

} // verus!
