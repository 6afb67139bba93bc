//! The command bytes (register selectors) the gauge understands.

use vstd::prelude::*;

verus! {

pub const CONTROL: u8 = 0x00;

pub const TEMPERATURE: u8 = 0x02;

pub const VOLTAGE: u8 = 0x04;

pub const FLAGS: u8 = 0x06;

pub const NOMINAL_AVAILABLE_CAPACITY: u8 = 0x08;

pub const FULL_AVAILABLE_CAPACITY: u8 = 0x0A;

pub const REMAINING_CAPACITY: u8 = 0x0C;

pub const FULL_CHARGE_CAPACITY: u8 = 0x0E;

pub const AVERAGE_CURRENT: u8 = 0x10;

pub const AVERAGE_POWER: u8 = 0x18;

pub const STATE_OF_CHARGE: u8 = 0x1C;

pub const INTERNAL_TEMPERATURE: u8 = 0x1E;

pub const STATE_OF_HEALTH: u8 = 0x20;

pub const REMAINING_CAPACITY_UNFILTERED: u8 = 0x28;

pub const REMAINING_CAPACITY_FILTERED: u8 = 0x2A;

pub const FULL_CHARGE_CAPACITY_UNFILTERED: u8 = 0x2C;

pub const FULL_CHARGE_CAPACITY_FILTERED: u8 = 0x2E;

pub const STATE_OF_CHARGE_UNFILTERED: u8 = 0x30;

// Extended commands: the block-memory (direct memory access) window.
pub const DATA_CLASS: u8 = 0x3E;

pub const DATA_BLOCK: u8 = 0x3F;

pub const BLOCK_DATA_START: u8 = 0x40;

pub const BLOCK_DATA_END: u8 = 0x5F;

pub const BLOCK_DATA_CHECKSUM: u8 = 0x60;

pub const BLOCK_DATA_CONTROL: u8 = 0x61;

} // verus!
