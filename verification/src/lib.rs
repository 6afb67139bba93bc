//! Driver for a TI BQ27xx-family battery fuel gauge on a two-wire register
//! bus.
//!
//! The driver owns a bus handle and a delay handle (both abstracted as
//! traits so that a real peripheral or a simulated device can stand behind
//! them) and exposes the gauge's command surface: direct telemetry reads,
//! two-phase control subcommands, the seal/config-update mode machine, and
//! the block-memory protocol for parameters that have no direct register.
//!
//! Every operation is specified against the sequence of bus transactions it
//! performs, so the exact wire traffic of each command is part of its
//! contract.

pub mod bq27xx;
pub mod bus;
pub mod codec;
pub mod commands;
pub mod control_subcommands;
pub mod error;
pub mod flags;
pub mod ids;
pub mod memory_subclass;
pub mod protocol;
pub mod sim;

pub use bq27xx::BQ27427_TWI_ADDRESS;
pub use bq27xx::Bq27xx;
pub use bus::Bus;
pub use bus::BusOp;
pub use bus::Delay;
pub use error::DeviceError;
pub use ids::ChemId;
pub use ids::DeviceType;
pub use sim::SimBus;
pub use sim::SimDelay;
pub use sim::SimError;
pub use sim::Transaction;
