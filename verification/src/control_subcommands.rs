//! The 16-bit subcommands written through the CONTROL register.

use vstd::prelude::*;

verus! {

pub const CONTROL_STATUS: u16 = 0x0000;

pub const DEVICE_TYPE: u16 = 0x0001;

pub const FW_VERSION: u16 = 0x0002;

pub const DM_CODE: u16 = 0x0004;

pub const PREV_MACWRITE: u16 = 0x0007;

pub const CHEM_ID: u16 = 0x0008;

pub const BAT_INSERT: u16 = 0x000C;

pub const BAT_REMOVE: u16 = 0x000D;

pub const SET_CFGUPDATE: u16 = 0x0013;

pub const SMOOTH_SYNC: u16 = 0x0019;

pub const SHUTDOWN_ENABLE: u16 = 0x001B;

pub const SHUTDOWN: u16 = 0x001C;

pub const SEALED: u16 = 0x0020;

pub const PULSE_SOC_INT: u16 = 0x0023;

pub const CHEM_A: u16 = 0x0030;

pub const CHEM_B: u16 = 0x0031;

pub const CHEM_C: u16 = 0x0032;

pub const RESET: u16 = 0x0041;

pub const SOFT_RESET: u16 = 0x0042;

} // verus!
