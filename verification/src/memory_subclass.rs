//! Identifiers of the logical subclasses of the gauge's non-volatile
//! configuration memory, reached through the block-memory protocol.

use vstd::prelude::*;

verus! {

pub const SAFETY: u8 = 2;

pub const CHARGE_TERMINATION: u8 = 36;

pub const DISCHARGE: u8 = 49;

pub const REGISTERS: u8 = 64;

pub const IT_CFG: u8 = 80;

pub const CURRENT_THRESHOLDS: u8 = 81;

pub const STATE: u8 = 82;

pub const RA0_RAM: u8 = 89;

pub const CHEM_DATA: u8 = 109;

pub const DATA: u8 = 104;

pub const CC_CAL: u8 = 105;

pub const CURRENT: u8 = 107;

pub const CODES: u8 = 112;

} // verus!
