//! The gauge driver: a typed command surface over a raw register bus.
//!
//! Layering, bottom up: raw exchanges (the [`Bus`] trait), direct command
//! and two-phase control reads/writes, the seal/config-update mode machine
//! with its bounded flags poll, and the block-memory protocol for
//! parameters without a direct register.
//!
//! The driver caches nothing: every accessor re-reads the chip, which is
//! the only source of truth for mode and configuration.

use vstd::prelude::*;

use crate::bus::Bus;
use crate::bus::BusOp;
use crate::bus::Delay;
use crate::codec::decode_le16;
use crate::codec::split_word;
use crate::commands;
use crate::control_subcommands;
use crate::error::DeviceError;
use crate::flags;
use crate::ids::ChemId;
use crate::ids::DeviceType;
use crate::ids::chem_id_of;
use crate::ids::chem_subcommand;
use crate::ids::device_type_of;
use crate::memory_subclass;
use crate::protocol::FLAG_POLL_INTERVAL_MS;
use crate::protocol::FLAG_POLL_RETRIES;
use crate::protocol::appended;
use crate::protocol::block_data_command;
use crate::protocol::block_read_trace_halted;
use crate::protocol::block_read_trace_ok;
use crate::protocol::block_read_value;
use crate::protocol::cfg_entry_ops_halted;
use crate::protocol::cfg_entry_ops_ok;
use crate::protocol::cfg_entry_ops_timeout;
use crate::protocol::control_select_op;
use crate::protocol::extends;
use crate::protocol::flag_bit_set;
use crate::protocol::is_command_read;
use crate::protocol::is_exchange;
use crate::protocol::is_flags_read;
use crate::protocol::lemma_block_halted;
use crate::protocol::lemma_extends_push;
use crate::protocol::lemma_extends_refl;
use crate::protocol::lemma_extends_trans;
use crate::protocol::poll_ops_all_clear;
use crate::protocol::poll_ops_ok;
use crate::protocol::poll_sleeps;
use crate::protocol::read_value;
use crate::protocol::write_op;

verus! {

/// The gauge's fixed 7-bit bus address, unless wired otherwise.
pub const BQ27427_TWI_ADDRESS: u8 = 0x55;

/// The live driver session: the bus handle, the delay handle, and the
/// resolved device address. It holds no other state.
pub struct Bq27xx<I, D> {
    i2c: I,
    delay: D,
    addr: u8,
}

impl<I: Bus, D: Delay> Bq27xx<I, D> {
    /// The transactions this driver's bus has completed, oldest first.
    pub closed spec fn log(&self) -> Seq<BusOp> {
        self.i2c.log()
    }

    /// The sleeps this driver's delay handle has served.
    pub closed spec fn sleeps(&self) -> Seq<u32> {
        self.delay.sleeps()
    }

    /// The device address every transaction is directed at.
    pub closed spec fn address(&self) -> u8 {
        self.addr
    }

    /// Bind a driver to a bus and a delay at an explicit device address.
    pub fn new_with_address(i2c: I, delay: D, addr: u8) -> (r: Self)
        ensures
            r.address() == addr,
            r.log() == i2c.log(),
            r.sleeps() == delay.sleeps(),
    {
        Bq27xx { i2c, delay, addr }
    }

    /// Bind a driver at the default device address.
    pub fn new(i2c: I, delay: D) -> (r: Self)
        ensures
            r.address() == BQ27427_TWI_ADDRESS,
            r.log() == i2c.log(),
            r.sleeps() == delay.sleeps(),
    {
        Self::new_with_address(i2c, delay, BQ27427_TWI_ADDRESS)
    }

    /// Give the bus and delay handles back, ending the session.
    pub fn release(self) -> (r: (I, D))
        ensures
            r.0.log() == self.log(),
            r.1.sleeps() == self.sleeps(),
    {
        (self.i2c, self.delay)
    }

    /// Write `[command, data]` to the device: a single bus transaction.
    pub fn write_command(&mut self, command: u8, data: u8) -> (r: Result<
        (),
        DeviceError<I::BusError>,
    >)
        ensures
            final(self).address() == old(self).address(),
            final(self).sleeps() == old(self).sleeps(),
            extends(old(self).log(), final(self).log()),
            match r {
                Ok(()) => appended(old(self).log(), final(self).log()) == seq![
                    write_op(old(self).address(), seq![command, data]),
                ],
                Err(e) => e is TransportError && final(self).log() == old(self).log(),
            },
    {
        let request: Vec<u8> = vec![command, data];
        match self.i2c.write_bytes(self.addr, &request) {
            Ok(()) => {
                proof {
                    assert(request@ =~= seq![command, data]);
                    lemma_extends_push(
                        old(self).log(),
                        write_op(old(self).address(), seq![command, data]),
                    );
                }
                Ok(())
            },
            Err(e) => {
                proof {
                    lemma_extends_refl(old(self).log());
                }
                Err(DeviceError::from_transport(e))
            },
        }
    }

    /// Read a 16-bit value from a direct command register: one
    /// write-then-read of the command byte, decoded little-endian.
    pub fn read_command(&mut self, command: u8) -> (r: Result<u16, DeviceError<I::BusError>>)
        ensures
            final(self).address() == old(self).address(),
            final(self).sleeps() == old(self).sleeps(),
            extends(old(self).log(), final(self).log()),
            match r {
                Ok(v) => ({
                    let ops = appended(old(self).log(), final(self).log());
                    &&& ops.len() == 1
                    &&& is_command_read(old(self).address(), command, ops[0])
                    &&& v == read_value(ops[0])
                }),
                Err(e) => e is TransportError && final(self).log() == old(self).log(),
            },
    {
        let request: Vec<u8> = vec![command];
        let mut response: Vec<u8> = vec![0u8, 0u8];
        match self.i2c.write_then_read(self.addr, &request, &mut response) {
            Ok(()) => {
                let v = decode_le16(response[0], response[1]);
                proof {
                    let op = BusOp::WriteRead {
                        addr: old(self).address(),
                        request: request@,
                        response: response@,
                    };
                    lemma_extends_push(old(self).log(), op);
                    assert(request@ =~= seq![command]);
                    assert(response@ =~= seq![response@[0], response@[1]]);
                }
                Ok(v)
            },
            Err(e) => {
                proof {
                    lemma_extends_refl(old(self).log());
                }
                Err(DeviceError::from_transport(e))
            },
        }
    }

    /// Select a control function: one write of `[CONTROL, low, high]`, the
    /// subcommand little-endian. No response is expected.
    pub fn write_control(&mut self, subcommand: u16) -> (r: Result<
        (),
        DeviceError<I::BusError>,
    >)
        ensures
            final(self).address() == old(self).address(),
            final(self).sleeps() == old(self).sleeps(),
            extends(old(self).log(), final(self).log()),
            match r {
                Ok(()) => appended(old(self).log(), final(self).log()) == seq![
                    control_select_op(old(self).address(), subcommand),
                ],
                Err(e) => e is TransportError && final(self).log() == old(self).log(),
            },
    {
        let (lo, hi) = split_word(subcommand);
        let request: Vec<u8> = vec![commands::CONTROL, lo, hi];
        match self.i2c.write_bytes(self.addr, &request) {
            Ok(()) => {
                proof {
                    assert(request@ =~= seq![commands::CONTROL, lo, hi]);
                    lemma_extends_push(
                        old(self).log(),
                        control_select_op(old(self).address(), subcommand),
                    );
                }
                Ok(())
            },
            Err(e) => {
                proof {
                    lemma_extends_refl(old(self).log());
                }
                Err(DeviceError::from_transport(e))
            },
        }
    }

    /// Run a control subcommand and fetch its 16-bit result. The chip wants
    /// the selection and the fetch as two separate transactions: first the
    /// three-byte select, then a read of the CONTROL register.
    pub fn read_control(&mut self, subcommand: u16) -> (r: Result<u16, DeviceError<I::BusError>>)
        ensures
            final(self).address() == old(self).address(),
            final(self).sleeps() == old(self).sleeps(),
            extends(old(self).log(), final(self).log()),
            match r {
                Ok(v) => ({
                    let ops = appended(old(self).log(), final(self).log());
                    &&& ops.len() == 2
                    &&& ops[0] == control_select_op(old(self).address(), subcommand)
                    &&& is_command_read(old(self).address(), commands::CONTROL, ops[1])
                    &&& v == read_value(ops[1])
                }),
                Err(e) => ({
                    let ops = appended(old(self).log(), final(self).log());
                    &&& e is TransportError
                    &&& ops.len() <= 1
                    &&& ops.len() == 1 ==> ops[0] == control_select_op(
                        old(self).address(),
                        subcommand,
                    )
                }),
            },
    {
        match self.write_control(subcommand) {
            Ok(()) => {},
            Err(e) => {
                return Err(e);
            },
        }
        let ghost mid = self.log();
        match self.read_command(commands::CONTROL) {
            Ok(v) => {
                proof {
                    lemma_extends_trans(old(self).log(), mid, self.log());
                }
                Ok(v)
            },
            Err(e) => {
                proof {
                    lemma_extends_refl(mid);
                    lemma_extends_trans(old(self).log(), mid, self.log());
                    assert(appended(old(self).log(), self.log()) =~= seq![
                        control_select_op(old(self).address(), subcommand),
                    ]);
                }
                Err(e)
            },
        }
    }

    /// Move the chip from Sealed to Unsealed. The vendor's unlock key
    /// sequence is deliberately not issued here; the operation performs no
    /// bus traffic and always succeeds.
    pub fn unseal(&mut self) -> (r: Result<(), DeviceError<I::BusError>>)
        ensures
            *final(self) == *old(self),
            r is Ok,
    {
        Ok(())
    }

    /// Move the chip from Unsealed back to Sealed. Like [`Self::unseal`],
    /// deliberately a no-op on the bus.
    pub fn seal(&mut self) -> (r: Result<(), DeviceError<I::BusError>>)
        ensures
            *final(self) == *old(self),
            r is Ok,
    {
        Ok(())
    }

    /// Read the FLAGS register: 16 condition bits, handed back untouched.
    pub fn get_flags(&mut self) -> (r: Result<u16, DeviceError<I::BusError>>)
        ensures
            final(self).address() == old(self).address(),
            final(self).sleeps() == old(self).sleeps(),
            extends(old(self).log(), final(self).log()),
            match r {
                Ok(v) => ({
                    let ops = appended(old(self).log(), final(self).log());
                    &&& ops.len() == 1
                    &&& is_flags_read(old(self).address(), ops[0])
                    &&& v == read_value(ops[0])
                }),
                Err(e) => e is TransportError && final(self).log() == old(self).log(),
            },
    {
        self.read_command(commands::FLAGS)
    }

    /// Poll the FLAGS register until some bit of `mask` reads set: sleep the
    /// fixed interval, read, test, at most [`FLAG_POLL_RETRIES`] times. The
    /// retry budget and interval are design constants, not tunables.
    fn wait_flags(&mut self, mask: u16) -> (r: Result<(), DeviceError<I::BusError>>)
        ensures
            final(self).address() == old(self).address(),
            extends(old(self).log(), final(self).log()),
            extends(old(self).sleeps(), final(self).sleeps()),
            ({
                let ops = appended(old(self).log(), final(self).log());
                let slp = appended(old(self).sleeps(), final(self).sleeps());
                match r {
                    Ok(()) => {
                        &&& poll_ops_ok(old(self).address(), mask, ops)
                        &&& slp == poll_sleeps(ops.len() as nat)
                    },
                    Err(DeviceError::PollTimeout) => {
                        &&& ops.len() == FLAG_POLL_RETRIES
                        &&& poll_ops_all_clear(old(self).address(), mask, ops)
                        &&& slp == poll_sleeps(FLAG_POLL_RETRIES as nat)
                    },
                    Err(DeviceError::TransportError(_)) => {
                        &&& ops.len() < FLAG_POLL_RETRIES
                        &&& poll_ops_all_clear(old(self).address(), mask, ops)
                        &&& slp == poll_sleeps((ops.len() + 1) as nat)
                    },
                }
            }),
    {
        let ghost a = self.address();
        let ghost log0 = self.log();
        let ghost slp0 = self.sleeps();
        let mut i: u32 = 0;
        proof {
            lemma_extends_refl(log0);
            lemma_extends_refl(slp0);
            assert(appended(slp0, self.sleeps()) =~= poll_sleeps(0));
        }
        while i < FLAG_POLL_RETRIES
            invariant
                i <= FLAG_POLL_RETRIES,
                self.address() == a,
                a == old(self).address(),
                log0 == old(self).log(),
                slp0 == old(self).sleeps(),
                extends(log0, self.log()),
                extends(slp0, self.sleeps()),
                appended(log0, self.log()).len() == i,
                poll_ops_all_clear(a, mask, appended(log0, self.log())),
                appended(slp0, self.sleeps()) == poll_sleeps(i as nat),
            decreases FLAG_POLL_RETRIES - i,
        {
            let ghost log_i = self.log();
            let ghost slp_i = self.sleeps();
            self.delay.delay_ms(FLAG_POLL_INTERVAL_MS);
            proof {
                lemma_extends_push(slp_i, FLAG_POLL_INTERVAL_MS);
                lemma_extends_trans(slp0, slp_i, self.sleeps());
                assert(appended(slp0, self.sleeps()) =~= poll_sleeps((i + 1) as nat));
            }
            let current = match self.get_flags() {
                Ok(v) => v,
                Err(e) => {
                    return Err(e);
                },
            };
            proof {
                lemma_extends_trans(log0, log_i, self.log());
            }
            let ghost ops = appended(log0, self.log());
            if current & mask != 0 {
                proof {
                    assert(ops =~= appended(log0, log_i) + appended(log_i, self.log()));
                    assert(ops.len() == i + 1);
                    assert(ops.last() == appended(log_i, self.log())[0]);
                    assert(flag_bit_set(mask, ops.last()));
                    assert forall|j: int| 0 <= j < ops.len() implies is_flags_read(
                        a,
                        #[trigger] ops[j],
                    ) by {
                        if j < i {
                            assert(ops[j] == appended(log0, log_i)[j]);
                        }
                    }
                    assert forall|j: int| 0 <= j < ops.len() - 1 implies !flag_bit_set(
                        mask,
                        #[trigger] ops[j],
                    ) by {
                        assert(ops[j] == appended(log0, log_i)[j]);
                    }
                }
                return Ok(());
            }
            proof {
                assert(ops =~= appended(log0, log_i) + appended(log_i, self.log()));
                assert(ops.len() == i + 1);
                assert forall|j: int| 0 <= j < ops.len() implies is_flags_read(
                    a,
                    #[trigger] ops[j],
                ) && !flag_bit_set(mask, #[trigger] ops[j]) by {
                    if j < i {
                        assert(ops[j] == appended(log0, log_i)[j]);
                    } else {
                        assert(ops[j] == appended(log_i, self.log())[0]);
                    }
                }
            }
            i = i + 1;
        }
        Err(DeviceError::PollTimeout)
    }

    /// Enter configuration-update mode: write the SET_CFGUPDATE subcommand,
    /// then poll the FLAGS register until the config-update bit appears.
    /// Fails with `PollTimeout` if the bit never shows within the budget.
    pub fn mode_cfgupdate(&mut self) -> (r: Result<(), DeviceError<I::BusError>>)
        ensures
            final(self).address() == old(self).address(),
            extends(old(self).log(), final(self).log()),
            extends(old(self).sleeps(), final(self).sleeps()),
            ({
                let ops = appended(old(self).log(), final(self).log());
                let slp = appended(old(self).sleeps(), final(self).sleeps());
                match r {
                    Ok(()) => {
                        &&& cfg_entry_ops_ok(old(self).address(), ops)
                        &&& slp == poll_sleeps((ops.len() - 1) as nat)
                    },
                    Err(DeviceError::PollTimeout) => {
                        &&& cfg_entry_ops_timeout(old(self).address(), ops)
                        &&& slp == poll_sleeps(FLAG_POLL_RETRIES as nat)
                    },
                    Err(DeviceError::TransportError(_)) => {
                        &&& cfg_entry_ops_halted(old(self).address(), ops)
                        &&& slp == poll_sleeps(ops.len() as nat)
                    },
                }
            }),
    {
        let ghost a = self.address();
        let ghost log0 = self.log();
        let ghost slp0 = self.sleeps();
        match self.write_control(control_subcommands::SET_CFGUPDATE) {
            Ok(()) => {},
            Err(e) => {
                proof {
                    lemma_extends_refl(slp0);
                    assert(appended(log0, self.log()) =~= Seq::<BusOp>::empty());
                    assert(appended(slp0, self.sleeps()) =~= poll_sleeps(0));
                }
                return Err(e);
            },
        }
        let ghost log1 = self.log();
        let ghost sel = control_select_op(a, control_subcommands::SET_CFGUPDATE);
        match self.wait_flags(flags::CFGUPMODE) {
            Ok(()) => {
                proof {
                    lemma_extends_trans(log0, log1, self.log());
                    let ops = appended(log0, self.log());
                    assert(ops =~= seq![sel] + appended(log1, self.log()));
                    assert(ops.skip(1) =~= appended(log1, self.log()));
                }
                Ok(())
            },
            Err(e) => {
                proof {
                    lemma_extends_trans(log0, log1, self.log());
                    let ops = appended(log0, self.log());
                    assert(ops =~= seq![sel] + appended(log1, self.log()));
                    assert(ops.skip(1) =~= appended(log1, self.log()));
                }
                Err(e)
            },
        }
    }

    /// Issue a hard reset. Returns once the command is on the bus; the
    /// driver does not wait for the device to come back.
    pub fn reset(&mut self) -> (r: Result<(), DeviceError<I::BusError>>)
        ensures
            final(self).address() == old(self).address(),
            final(self).sleeps() == old(self).sleeps(),
            extends(old(self).log(), final(self).log()),
            match r {
                Ok(()) => appended(old(self).log(), final(self).log()) == seq![
                    control_select_op(old(self).address(), control_subcommands::RESET),
                ],
                Err(e) => e is TransportError && final(self).log() == old(self).log(),
            },
    {
        self.write_control(control_subcommands::RESET)
    }

    /// Issue a soft reset, the exit from configuration-update mode. Returns
    /// once the command is on the bus.
    pub fn soft_reset(&mut self) -> (r: Result<(), DeviceError<I::BusError>>)
        ensures
            final(self).address() == old(self).address(),
            final(self).sleeps() == old(self).sleeps(),
            extends(old(self).log(), final(self).log()),
            match r {
                Ok(()) => appended(old(self).log(), final(self).log()) == seq![
                    control_select_op(old(self).address(), control_subcommands::SOFT_RESET),
                ],
                Err(e) => e is TransportError && final(self).log() == old(self).log(),
            },
    {
        self.write_control(control_subcommands::SOFT_RESET)
    }

    /// Read one 16-bit value out of non-volatile block memory at
    /// (`class`, `offset`): unseal, enter config-update mode, disable block
    /// protection, select class and 32-byte block, read the block checksum
    /// byte (reported by the chip; not validated here), read the value, and
    /// leave through a soft reset.
    ///
    /// The precondition rules out a read that would straddle a 32-byte
    /// block boundary; split reads are not supported. On a transport
    /// failure the sequence stops at the failing step, which leaves the
    /// device in config-update mode: treat a failed block read as wanting a
    /// defensive reset before further register work.
    pub fn read_mem_simple(&mut self, class: u8, offset: u8) -> (r: Result<
        u16,
        DeviceError<I::BusError>,
    >)
        requires
            offset % 32 < 31,
        ensures
            final(self).address() == old(self).address(),
            extends(old(self).log(), final(self).log()),
            extends(old(self).sleeps(), final(self).sleeps()),
            ({
                let ops = appended(old(self).log(), final(self).log());
                let slp = appended(old(self).sleeps(), final(self).sleeps());
                match r {
                    Ok(v) => {
                        &&& block_read_trace_ok(old(self).address(), class, offset, ops, slp)
                        &&& v == block_read_value(ops)
                    },
                    Err(DeviceError::PollTimeout) => {
                        &&& cfg_entry_ops_timeout(old(self).address(), ops)
                        &&& slp == poll_sleeps(FLAG_POLL_RETRIES as nat)
                    },
                    Err(DeviceError::TransportError(_)) => block_read_trace_halted(
                        old(self).address(),
                        class,
                        offset,
                        ops,
                        slp,
                    ),
                }
            }),
    {
        let ghost a = self.address();
        let ghost log0 = self.log();
        let ghost slp0 = self.sleeps();
        match self.unseal() {
            Ok(()) => {},
            Err(e) => {
                return Err(e);
            },
        }
        match self.mode_cfgupdate() {
            Ok(()) => {},
            Err(e) => {
                return Err(e);
            },
        }
        let ghost log1 = self.log();
        let ghost cfg = appended(log0, log1);
        let ghost slp = appended(slp0, self.sleeps());
        let ghost w1 = write_op(a, seq![commands::BLOCK_DATA_CONTROL, 0u8]);
        let ghost w2 = write_op(a, seq![commands::DATA_CLASS, class]);
        let ghost w3 = write_op(a, seq![commands::DATA_BLOCK, (offset / 32) as u8]);

        // Writing 0 here opens direct access to the block-data window.
        match self.write_command(commands::BLOCK_DATA_CONTROL, 0) {
            Ok(()) => {},
            Err(e) => {
                proof {
                    lemma_extends_trans(log0, log1, self.log());
                    assert(appended(log0, self.log()) =~= cfg + Seq::<BusOp>::empty());
                    lemma_block_halted(a, class, offset, cfg, Seq::<BusOp>::empty(), slp);
                }
                return Err(e);
            },
        }
        let ghost log2 = self.log();
        proof {
            lemma_extends_trans(log0, log1, log2);
        }
        match self.write_command(commands::DATA_CLASS, class) {
            Ok(()) => {},
            Err(e) => {
                proof {
                    lemma_extends_trans(log0, log2, self.log());
                    assert(appended(log0, self.log()) =~= cfg + seq![w1]);
                    lemma_block_halted(a, class, offset, cfg, seq![w1], slp);
                }
                return Err(e);
            },
        }
        let ghost log3 = self.log();
        proof {
            lemma_extends_trans(log0, log2, log3);
            assert(appended(log0, log3) =~= cfg + seq![w1, w2]);
        }
        match self.write_command(commands::DATA_BLOCK, offset / 32) {
            Ok(()) => {},
            Err(e) => {
                proof {
                    lemma_extends_trans(log0, log3, self.log());
                    assert(appended(log0, self.log()) =~= cfg + seq![w1, w2]);
                    lemma_block_halted(a, class, offset, cfg, seq![w1, w2], slp);
                }
                return Err(e);
            },
        }
        let ghost log4 = self.log();
        proof {
            lemma_extends_trans(log0, log3, log4);
            assert(appended(log0, log4) =~= cfg + seq![w1, w2, w3]);
        }

        // The chip's checksum over the selected block; read, handed on
        // unvalidated.
        let checksum_request: Vec<u8> = vec![commands::BLOCK_DATA_CHECKSUM];
        let mut checksum: Vec<u8> = vec![0u8];
        match self.i2c.write_then_read(self.addr, &checksum_request, &mut checksum) {
            Ok(()) => {},
            Err(e) => {
                proof {
                    lemma_extends_refl(log4);
                    lemma_extends_trans(log0, log4, self.log());
                    assert(appended(log0, self.log()) =~= cfg + seq![w1, w2, w3]);
                    lemma_block_halted(a, class, offset, cfg, seq![w1, w2, w3], slp);
                }
                return Err(DeviceError::from_transport(e));
            },
        }
        let ghost ck = BusOp::WriteRead {
            addr: a,
            request: checksum_request@,
            response: checksum@,
        };
        let ghost log5 = self.log();
        proof {
            lemma_extends_push(log4, ck);
            lemma_extends_trans(log0, log4, log5);
            assert(checksum_request@ =~= seq![commands::BLOCK_DATA_CHECKSUM]);
            assert(is_exchange(a, seq![commands::BLOCK_DATA_CHECKSUM], 1, ck));
            assert(appended(log0, log5) =~= cfg + seq![w1, w2, w3, ck]);
        }

        let response = match self.read_command(commands::BLOCK_DATA_START + offset % 32) {
            Ok(v) => v,
            Err(e) => {
                proof {
                    lemma_extends_trans(log0, log5, self.log());
                    assert(appended(log0, self.log()) =~= cfg + seq![w1, w2, w3, ck]);
                    lemma_block_halted(a, class, offset, cfg, seq![w1, w2, w3, ck], slp);
                }
                return Err(e);
            },
        };
        let ghost rd = appended(log5, self.log())[0];
        let ghost log6 = self.log();
        proof {
            lemma_extends_trans(log0, log5, log6);
            assert(appended(log0, log6) =~= cfg + seq![w1, w2, w3, ck, rd]);
            assert(is_command_read(a, block_data_command(offset), rd));
        }

        match self.soft_reset() {
            Ok(()) => {},
            Err(e) => {
                proof {
                    lemma_extends_trans(log0, log6, self.log());
                    assert(appended(log0, self.log()) =~= cfg + seq![w1, w2, w3, ck, rd]);
                    lemma_block_halted(a, class, offset, cfg, seq![w1, w2, w3, ck, rd], slp);
                }
                return Err(e);
            },
        }
        proof {
            lemma_extends_trans(log0, log6, self.log());
            let sr = control_select_op(a, control_subcommands::SOFT_RESET);
            let ops = appended(log0, self.log());
            assert(ops =~= cfg + seq![w1, w2, w3, ck, rd, sr]);
            assert(ops.len() == cfg.len() + 6);
            assert(ops.take(ops.len() - 6) =~= cfg);
            assert(ops.skip(ops.len() - 6) =~= seq![w1, w2, w3, ck, rd, sr]);
            assert(ops[ops.len() - 2] == rd);
        }
        Ok(response)
    }

    /// Reprogram the gauge's chemistry profile: unseal, enter config-update
    /// mode, write the profile's control subcommand, and soft-reset. An
    /// unrecognized profile is a caller error, turned away before any bus
    /// traffic.
    pub fn set_chem_id(&mut self, id: ChemId) -> (r: Result<(), DeviceError<I::BusError>>)
        requires
            !(id is Unknown),
        ensures
            final(self).address() == old(self).address(),
            extends(old(self).log(), final(self).log()),
            extends(old(self).sleeps(), final(self).sleeps()),
            ({
                let ops = appended(old(self).log(), final(self).log());
                let slp = appended(old(self).sleeps(), final(self).sleeps());
                match r {
                    Ok(()) => {
                        &&& ops.len() >= 4
                        &&& cfg_entry_ops_ok(old(self).address(), ops.take(ops.len() - 2))
                        &&& ops[ops.len() - 2] == control_select_op(
                            old(self).address(),
                            chem_subcommand(id),
                        )
                        &&& ops[ops.len() - 1] == control_select_op(
                            old(self).address(),
                            control_subcommands::SOFT_RESET,
                        )
                        &&& slp == poll_sleeps((ops.len() - 3) as nat)
                    },
                    Err(DeviceError::PollTimeout) => {
                        &&& cfg_entry_ops_timeout(old(self).address(), ops)
                        &&& slp == poll_sleeps(FLAG_POLL_RETRIES as nat)
                    },
                    Err(DeviceError::TransportError(_)) => {
                        ||| {
                            &&& cfg_entry_ops_halted(old(self).address(), ops)
                            &&& slp == poll_sleeps(ops.len() as nat)
                        }
                        ||| exists|k: int|
                            {
                                &&& 2 <= k <= ops.len() <= k + 1
                                &&& cfg_entry_ops_ok(old(self).address(), #[trigger] ops.take(k))
                                &&& (ops.len() == k + 1 ==> ops[k] == control_select_op(
                                    old(self).address(),
                                    chem_subcommand(id),
                                ))
                                &&& slp == poll_sleeps((k - 1) as nat)
                            }
                    },
                }
            }),
    {
        let subcommand: u16 = match id {
            ChemId::A4350 => control_subcommands::CHEM_A,
            ChemId::B4200 => control_subcommands::CHEM_B,
            ChemId::C4400 => control_subcommands::CHEM_C,
            ChemId::Unknown => {
                // Unreachable for verified callers (see the precondition);
                // an unchecked caller is rejected here, before any bus
                // traffic.
                return Err(DeviceError::PollTimeout);
            },
        };
        let ghost a = self.address();
        let ghost log0 = self.log();
        let ghost slp0 = self.sleeps();
        match self.unseal() {
            Ok(()) => {},
            Err(e) => {
                return Err(e);
            },
        }
        match self.mode_cfgupdate() {
            Ok(()) => {},
            Err(e) => {
                return Err(e);
            },
        }
        let ghost log1 = self.log();
        let ghost cfg = appended(log0, log1);
        let ghost slp = appended(slp0, self.sleeps());
        match self.write_control(subcommand) {
            Ok(()) => {},
            Err(e) => {
                proof {
                    lemma_extends_trans(log0, log1, self.log());
                    let ops = appended(log0, self.log());
                    assert(ops =~= cfg);
                    assert(ops.take(cfg.len() as int) =~= cfg);
                    assert(cfg_entry_ops_ok(a, ops.take(cfg.len() as int)));
                }
                return Err(e);
            },
        }
        let ghost log2 = self.log();
        proof {
            lemma_extends_trans(log0, log1, log2);
        }
        match self.soft_reset() {
            Ok(()) => {
                proof {
                    lemma_extends_trans(log0, log2, self.log());
                    let ops = appended(log0, self.log());
                    let ch = control_select_op(a, chem_subcommand(id));
                    let sr = control_select_op(a, control_subcommands::SOFT_RESET);
                    assert(ops =~= cfg + seq![ch, sr]);
                    assert(ops.take(ops.len() - 2) =~= cfg);
                }
                Ok(())
            },
            Err(e) => {
                proof {
                    lemma_extends_trans(log0, log2, self.log());
                    let ops = appended(log0, self.log());
                    let ch = control_select_op(a, chem_subcommand(id));
                    assert(ops =~= cfg + seq![ch]);
                    assert(ops.take(cfg.len() as int) =~= cfg);
                    assert(cfg_entry_ops_ok(a, ops.take(cfg.len() as int)));
                    assert(ops[cfg.len() as int] == ch);
                }
                Err(e)
            },
        }
    }

    /// The chemistry profile the gauge is currently running, decoded from
    /// the CHEM_ID control read. An unrecognized code is `Unknown`.
    pub fn get_chem_id(&mut self) -> (r: Result<ChemId, DeviceError<I::BusError>>)
        ensures
            final(self).address() == old(self).address(),
            final(self).sleeps() == old(self).sleeps(),
            extends(old(self).log(), final(self).log()),
            match r {
                Ok(id) => ({
                    let ops = appended(old(self).log(), final(self).log());
                    &&& ops.len() == 2
                    &&& ops[0] == control_select_op(
                        old(self).address(),
                        control_subcommands::CHEM_ID,
                    )
                    &&& is_command_read(old(self).address(), commands::CONTROL, ops[1])
                    &&& id == chem_id_of(read_value(ops[1]))
                }),
                Err(e) => ({
                    let ops = appended(old(self).log(), final(self).log());
                    &&& e is TransportError
                    &&& ops.len() <= 1
                    &&& ops.len() == 1 ==> ops[0] == control_select_op(
                        old(self).address(),
                        control_subcommands::CHEM_ID,
                    )
                }),
            },
    {
        match self.read_control(control_subcommands::CHEM_ID) {
            Ok(code) => Ok(ChemId::from(code)),
            Err(e) => Err(e),
        }
    }

    /// Probe which member of the gauge family is on the bus, decoded from
    /// the DEVICE_TYPE control read. An unrecognized code is `Unknown`.
    pub fn probe(&mut self) -> (r: Result<DeviceType, DeviceError<I::BusError>>)
        ensures
            final(self).address() == old(self).address(),
            final(self).sleeps() == old(self).sleeps(),
            extends(old(self).log(), final(self).log()),
            match r {
                Ok(t) => ({
                    let ops = appended(old(self).log(), final(self).log());
                    &&& ops.len() == 2
                    &&& ops[0] == control_select_op(
                        old(self).address(),
                        control_subcommands::DEVICE_TYPE,
                    )
                    &&& is_command_read(old(self).address(), commands::CONTROL, ops[1])
                    &&& t == device_type_of(read_value(ops[1]))
                }),
                Err(e) => ({
                    let ops = appended(old(self).log(), final(self).log());
                    &&& e is TransportError
                    &&& ops.len() <= 1
                    &&& ops.len() == 1 ==> ops[0] == control_select_op(
                        old(self).address(),
                        control_subcommands::DEVICE_TYPE,
                    )
                }),
            },
    {
        match self.read_control(control_subcommands::DEVICE_TYPE) {
            Ok(code) => Ok(DeviceType::from(code)),
            Err(e) => Err(e),
        }
    }

    /// The firmware version word, from the FW_VERSION control read.
    pub fn fw_version(&mut self) -> (r: Result<u16, DeviceError<I::BusError>>)
        ensures
            final(self).address() == old(self).address(),
            final(self).sleeps() == old(self).sleeps(),
            extends(old(self).log(), final(self).log()),
            match r {
                Ok(v) => ({
                    let ops = appended(old(self).log(), final(self).log());
                    &&& ops.len() == 2
                    &&& ops[0] == control_select_op(
                        old(self).address(),
                        control_subcommands::FW_VERSION,
                    )
                    &&& is_command_read(old(self).address(), commands::CONTROL, ops[1])
                    &&& v == read_value(ops[1])
                }),
                Err(e) => ({
                    let ops = appended(old(self).log(), final(self).log());
                    &&& e is TransportError
                    &&& ops.len() <= 1
                    &&& ops.len() == 1 ==> ops[0] == control_select_op(
                        old(self).address(),
                        control_subcommands::FW_VERSION,
                    )
                }),
            },
    {
        self.read_control(control_subcommands::FW_VERSION)
    }

    /// State of charge, in percent, from the direct register.
    pub fn state_of_charge(&mut self) -> (r: Result<u16, DeviceError<I::BusError>>)
        ensures
            final(self).address() == old(self).address(),
            final(self).sleeps() == old(self).sleeps(),
            extends(old(self).log(), final(self).log()),
            match r {
                Ok(v) => ({
                    let ops = appended(old(self).log(), final(self).log());
                    &&& ops.len() == 1
                    &&& is_command_read(old(self).address(), commands::STATE_OF_CHARGE, ops[0])
                    &&& v == read_value(ops[0])
                }),
                Err(e) => e is TransportError && final(self).log() == old(self).log(),
            },
    {
        self.read_command(commands::STATE_OF_CHARGE)
    }

    /// Battery voltage, in millivolts, from the direct register.
    pub fn voltage(&mut self) -> (r: Result<u16, DeviceError<I::BusError>>)
        ensures
            final(self).address() == old(self).address(),
            final(self).sleeps() == old(self).sleeps(),
            extends(old(self).log(), final(self).log()),
            match r {
                Ok(v) => ({
                    let ops = appended(old(self).log(), final(self).log());
                    &&& ops.len() == 1
                    &&& is_command_read(old(self).address(), commands::VOLTAGE, ops[0])
                    &&& v == read_value(ops[0])
                }),
                Err(e) => e is TransportError && final(self).log() == old(self).log(),
            },
    {
        self.read_command(commands::VOLTAGE)
    }

    /// Temperature, in the chip's raw units, from the direct register.
    pub fn temperature(&mut self) -> (r: Result<u16, DeviceError<I::BusError>>)
        ensures
            final(self).address() == old(self).address(),
            final(self).sleeps() == old(self).sleeps(),
            extends(old(self).log(), final(self).log()),
            match r {
                Ok(v) => ({
                    let ops = appended(old(self).log(), final(self).log());
                    &&& ops.len() == 1
                    &&& is_command_read(old(self).address(), commands::TEMPERATURE, ops[0])
                    &&& v == read_value(ops[0])
                }),
                Err(e) => e is TransportError && final(self).log() == old(self).log(),
            },
    {
        self.read_command(commands::TEMPERATURE)
    }

    /// Average current, as the chip reports it, from the direct register.
    pub fn average_current(&mut self) -> (r: Result<u16, DeviceError<I::BusError>>)
        ensures
            final(self).address() == old(self).address(),
            final(self).sleeps() == old(self).sleeps(),
            extends(old(self).log(), final(self).log()),
            match r {
                Ok(v) => ({
                    let ops = appended(old(self).log(), final(self).log());
                    &&& ops.len() == 1
                    &&& is_command_read(old(self).address(), commands::AVERAGE_CURRENT, ops[0])
                    &&& v == read_value(ops[0])
                }),
                Err(e) => e is TransportError && final(self).log() == old(self).log(),
            },
    {
        self.read_command(commands::AVERAGE_CURRENT)
    }

    /// Design capacity, read out of block memory at subclass STATE,
    /// offset 6.
    pub fn get_capacity(&mut self) -> (r: Result<u16, DeviceError<I::BusError>>)
        ensures
            final(self).address() == old(self).address(),
            extends(old(self).log(), final(self).log()),
            extends(old(self).sleeps(), final(self).sleeps()),
            ({
                let ops = appended(old(self).log(), final(self).log());
                let slp = appended(old(self).sleeps(), final(self).sleeps());
                match r {
                    Ok(v) => {
                        &&& block_read_trace_ok(
                            old(self).address(),
                            memory_subclass::STATE,
                            6,
                            ops,
                            slp,
                        )
                        &&& v == block_read_value(ops)
                    },
                    Err(DeviceError::PollTimeout) => {
                        &&& cfg_entry_ops_timeout(old(self).address(), ops)
                        &&& slp == poll_sleeps(FLAG_POLL_RETRIES as nat)
                    },
                    Err(DeviceError::TransportError(_)) => block_read_trace_halted(
                        old(self).address(),
                        memory_subclass::STATE,
                        6,
                        ops,
                        slp,
                    ),
                }
            }),
    {
        self.read_mem_simple(memory_subclass::STATE, 6)
    }
}

} // verus!
