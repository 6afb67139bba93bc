//! The identity codes the gauge reports: battery chemistry profile and
//! device type. Both decode totally from a 16-bit code; an unrecognized
//! code is a valid `Unknown` value, never an error, and is never coerced
//! into a known variant.

use vstd::prelude::*;

use crate::control_subcommands;

verus! {

/// The control subcommand that selects a known chemistry profile. The value
/// paired with `Unknown` is immaterial: no driver operation ever puts it on
/// the bus.
pub open spec fn chem_subcommand(id: ChemId) -> u16 {
    match id {
        ChemId::A4350 => control_subcommands::CHEM_A,
        ChemId::B4200 => control_subcommands::CHEM_B,
        ChemId::C4400 => control_subcommands::CHEM_C,
        ChemId::Unknown => 0,
    }
}

/// A battery chemistry profile: the charge/discharge curve the gauge's
/// algorithm runs on.
#[derive(Clone, Copy, Debug, PartialEq, Eq, Structural)]
pub enum ChemId {
    A4350,
    B4200,
    C4400,
    Unknown,
}

/// The chemistry profile a 16-bit chem-id code stands for.
pub open spec fn chem_id_of(code: u16) -> ChemId {
    if code == 0x3230 {
        ChemId::A4350
    } else if code == 0x1202 {
        ChemId::B4200
    } else if code == 0x3142 {
        ChemId::C4400
    } else {
        ChemId::Unknown
    }
}

impl From<u16> for ChemId {
    fn from(code: u16) -> (r: Self) {
        match code {
            0x3230 => ChemId::A4350,
            0x1202 => ChemId::B4200,
            0x3142 => ChemId::C4400,
            _ => ChemId::Unknown,
        }
    }
}

impl vstd::std_specs::convert::FromSpecImpl<u16> for ChemId {
    open spec fn obeys_from_spec() -> bool {
        true
    }

    open spec fn from_spec(code: u16) -> Self {
        chem_id_of(code)
    }
}

/// The member of the gauge family the chip reports itself as. The command
/// set here is the BQ27427's; its siblings answer the same protocol.
#[derive(Clone, Copy, Debug, PartialEq, Eq, Structural)]
pub enum DeviceType {
    BQ27421,
    BQ27426,
    BQ27427,
    Unknown,
}

/// The device type a 16-bit device-type code stands for.
pub open spec fn device_type_of(code: u16) -> DeviceType {
    if code == 0x421 {
        DeviceType::BQ27421
    } else if code == 0x426 {
        DeviceType::BQ27426
    } else if code == 0x427 {
        DeviceType::BQ27427
    } else {
        DeviceType::Unknown
    }
}

impl From<u16> for DeviceType {
    fn from(code: u16) -> (r: Self) {
        match code {
            0x421 => DeviceType::BQ27421,
            0x426 => DeviceType::BQ27426,
            0x427 => DeviceType::BQ27427,
            _ => DeviceType::Unknown,
        }
    }
}

impl vstd::std_specs::convert::FromSpecImpl<u16> for DeviceType {
    open spec fn obeys_from_spec() -> bool {
        true
    }

    open spec fn from_spec(code: u16) -> Self {
        device_type_of(code)
    }
}

} // verus!
