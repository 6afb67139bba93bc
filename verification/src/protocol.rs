//! The wire-level vocabulary of the driver's contracts.
//!
//! Every driver operation is specified by how it extends the bus log: the
//! spec functions here name the individual transactions of the command
//! protocol and the transaction sequences of its multi-step procedures
//! (control reads, the config-update entry poll, the block-memory read).

use vstd::prelude::*;

use crate::bus::BusOp;
use crate::codec::le16;
use crate::codec::low_byte;
use crate::codec::high_byte;
use crate::commands;
use crate::control_subcommands;
use crate::flags;

verus! {

/// How often the config-update poll re-reads the FLAGS register before
/// giving up.
pub const FLAG_POLL_RETRIES: u32 = 10;

/// The fixed interval, in milliseconds, between two polls of the FLAGS
/// register.
pub const FLAG_POLL_INTERVAL_MS: u32 = 500;

/// `post` is `pre` with zero or more transactions appended.
pub open spec fn extends<T>(pre: Seq<T>, post: Seq<T>) -> bool {
    post.len() >= pre.len() && post.take(pre.len() as int) == pre
}

/// The transactions appended to `pre` to reach `post`.
pub open spec fn appended<T>(pre: Seq<T>, post: Seq<T>) -> Seq<T> {
    post.skip(pre.len() as int)
}

pub proof fn lemma_extends_refl<T>(a: Seq<T>)
    ensures
        extends(a, a),
        appended(a, a) == Seq::<T>::empty(),
{
    assert(a.take(a.len() as int) =~= a);
    assert(a.skip(a.len() as int) =~= Seq::<T>::empty());
}

pub proof fn lemma_extends_push<T>(a: Seq<T>, x: T)
    ensures
        extends(a, a.push(x)),
        appended(a, a.push(x)) == seq![x],
{
    assert(a.push(x).take(a.len() as int) =~= a);
    assert(a.push(x).skip(a.len() as int) =~= seq![x]);
}

pub proof fn lemma_extends_trans<T>(a: Seq<T>, b: Seq<T>, c: Seq<T>)
    requires
        extends(a, b),
        extends(b, c),
    ensures
        extends(a, c),
        appended(a, c) == appended(a, b) + appended(b, c),
{
    assert forall|i: int| 0 <= i < b.len() implies c[i] == b[i] by {
        assert(c.take(b.len() as int)[i] == c[i]);
    }
    assert(c.take(a.len() as int) =~= a);
    assert(c.skip(a.len() as int) =~= b.skip(a.len() as int) + c.skip(b.len() as int));
}

/// A plain register write.
pub open spec fn write_op(addr: u8, data: Seq<u8>) -> BusOp {
    BusOp::Write { addr, data }
}

/// The three-byte write that selects a control subcommand:
/// `[CONTROL, low, high]`, little-endian subcommand.
pub open spec fn control_select_op(addr: u8, subcommand: u16) -> BusOp {
    BusOp::Write {
        addr,
        data: seq![commands::CONTROL, low_byte(subcommand), high_byte(subcommand)],
    }
}

/// A write of `request` answered by `n` bytes, as one transaction.
pub open spec fn is_exchange(addr: u8, request: Seq<u8>, n: nat, op: BusOp) -> bool {
    op matches BusOp::WriteRead { addr: a, request: q, response } && a == addr && q == request
        && response.len() == n
}

/// The transaction of a direct command read: the command byte answered by a
/// 16-bit little-endian value.
pub open spec fn is_command_read(addr: u8, command: u8, op: BusOp) -> bool {
    is_exchange(addr, seq![command], 2, op)
}

/// The 16-bit value a read transaction returned.
pub open spec fn read_value(op: BusOp) -> u16 {
    le16(op.response())
}

pub open spec fn is_flags_read(addr: u8, op: BusOp) -> bool {
    is_command_read(addr, commands::FLAGS, op)
}

/// The read transaction `op` reported at least one bit of `mask` set.
pub open spec fn flag_bit_set(mask: u16, op: BusOp) -> bool {
    read_value(op) & mask != 0
}

/// The sleeps served by `n` rounds of the flags poll.
pub open spec fn poll_sleeps(n: nat) -> Seq<u32> {
    Seq::new(n, |i: int| FLAG_POLL_INTERVAL_MS)
}

/// The trace of a successful poll for `mask`: up to the retry budget of
/// FLAGS reads, every earlier one with the mask clear, the last one with it
/// set.
pub open spec fn poll_ops_ok(addr: u8, mask: u16, ops: Seq<BusOp>) -> bool {
    &&& 1 <= ops.len() <= FLAG_POLL_RETRIES
    &&& forall|i: int| 0 <= i < ops.len() ==> is_flags_read(addr, #[trigger] ops[i])
    &&& forall|i: int| 0 <= i < ops.len() - 1 ==> !flag_bit_set(mask, #[trigger] ops[i])
    &&& flag_bit_set(mask, ops.last())
}

/// A run of FLAGS reads none of which reported `mask` set.
pub open spec fn poll_ops_all_clear(addr: u8, mask: u16, ops: Seq<BusOp>) -> bool {
    &&& forall|i: int| 0 <= i < ops.len() ==> is_flags_read(addr, #[trigger] ops[i])
    &&& forall|i: int| 0 <= i < ops.len() ==> !flag_bit_set(mask, #[trigger] ops[i])
}

/// The trace of a completed entry into configuration-update mode: the
/// SET_CFGUPDATE control write, then a successful poll of the
/// config-update bit.
pub open spec fn cfg_entry_ops_ok(addr: u8, ops: Seq<BusOp>) -> bool {
    &&& ops.len() >= 2
    &&& ops[0] == control_select_op(addr, control_subcommands::SET_CFGUPDATE)
    &&& poll_ops_ok(addr, flags::CFGUPMODE, ops.skip(1))
}

/// The trace of an entry attempt that exhausted the whole retry budget
/// without ever seeing the config-update bit.
pub open spec fn cfg_entry_ops_timeout(addr: u8, ops: Seq<BusOp>) -> bool {
    &&& ops.len() == 1 + FLAG_POLL_RETRIES
    &&& ops[0] == control_select_op(addr, control_subcommands::SET_CFGUPDATE)
    &&& poll_ops_all_clear(addr, flags::CFGUPMODE, ops.skip(1))
}

/// The trace of an entry attempt cut short by a transport failure: either
/// the SET_CFGUPDATE write itself failed (nothing completed), or some poll
/// read failed after a run of clear reads. Nothing follows the failure.
pub open spec fn cfg_entry_ops_halted(addr: u8, ops: Seq<BusOp>) -> bool {
    ||| ops.len() == 0
    ||| {
        &&& 1 <= ops.len() <= FLAG_POLL_RETRIES
        &&& ops[0] == control_select_op(addr, control_subcommands::SET_CFGUPDATE)
        &&& poll_ops_all_clear(addr, flags::CFGUPMODE, ops.skip(1))
    }
}

/// The command byte that reads the addressed 16-bit value inside the
/// selected 32-byte block.
pub open spec fn block_data_command(offset: u8) -> u8 {
    (commands::BLOCK_DATA_START + offset % 32) as u8
}

/// The six transactions that follow a completed config-update entry in a
/// simple block-memory read: disable block protection, select the class,
/// select the 32-byte block, read the checksum byte, read the value, and
/// leave via a soft reset.
pub open spec fn block_tail_ops_ok(addr: u8, class: u8, offset: u8, ops: Seq<BusOp>) -> bool {
    &&& ops.len() == 6
    &&& ops[0] == write_op(addr, seq![commands::BLOCK_DATA_CONTROL, 0u8])
    &&& ops[1] == write_op(addr, seq![commands::DATA_CLASS, class])
    &&& ops[2] == write_op(addr, seq![commands::DATA_BLOCK, (offset / 32) as u8])
    &&& is_exchange(addr, seq![commands::BLOCK_DATA_CHECKSUM], 1, ops[3])
    &&& is_command_read(addr, block_data_command(offset), ops[4])
    &&& ops[5] == control_select_op(addr, control_subcommands::SOFT_RESET)
}

/// A proper prefix of the six-step tail: what the bus saw when a transport
/// failure halted the block read after config-update entry had completed.
pub open spec fn block_tail_ops_prefix(addr: u8, class: u8, offset: u8, ops: Seq<BusOp>) -> bool {
    &&& ops.len() <= 5
    &&& ops.len() >= 1 ==> ops[0] == write_op(addr, seq![commands::BLOCK_DATA_CONTROL, 0u8])
    &&& ops.len() >= 2 ==> ops[1] == write_op(addr, seq![commands::DATA_CLASS, class])
    &&& ops.len() >= 3 ==> ops[2] == write_op(addr, seq![commands::DATA_BLOCK, (offset / 32) as u8])
    &&& ops.len() >= 4 ==> is_exchange(addr, seq![commands::BLOCK_DATA_CHECKSUM], 1, ops[3])
    &&& ops.len() >= 5 ==> is_command_read(addr, block_data_command(offset), ops[4])
}

/// The complete trace of a successful simple block-memory read, sleeps
/// included: a config-update entry, then the six-step tail; one poll sleep
/// per flags read.
pub open spec fn block_read_trace_ok(
    addr: u8,
    class: u8,
    offset: u8,
    ops: Seq<BusOp>,
    slp: Seq<u32>,
) -> bool {
    &&& ops.len() >= 8
    &&& cfg_entry_ops_ok(addr, ops.take(ops.len() - 6))
    &&& block_tail_ops_ok(addr, class, offset, ops.skip(ops.len() - 6))
    &&& slp == poll_sleeps((ops.len() - 7) as nat)
}

/// The 16-bit value a successful block read returned: the response of the
/// next-to-last transaction (the value read; the soft reset follows it).
pub open spec fn block_read_value(ops: Seq<BusOp>) -> u16 {
    read_value(ops[ops.len() - 2])
}

/// The trace of a block read halted by a transport failure: the failure
/// struck either during config-update entry, or in the six-step tail after
/// a completed entry. No transaction follows the failure point.
pub open spec fn block_read_trace_halted(
    addr: u8,
    class: u8,
    offset: u8,
    ops: Seq<BusOp>,
    slp: Seq<u32>,
) -> bool {
    ||| {
        &&& cfg_entry_ops_halted(addr, ops)
        &&& slp == poll_sleeps(ops.len() as nat)
    }
    ||| exists|k: int|
        {
            &&& 2 <= k <= ops.len()
            &&& cfg_entry_ops_ok(addr, #[trigger] ops.take(k))
            &&& block_tail_ops_prefix(addr, class, offset, ops.skip(k))
            &&& slp == poll_sleeps((k - 1) as nat)
        }
}

/// A halted block read decomposes as a completed config-update entry
/// followed by a proper prefix of the six-step tail.
pub proof fn lemma_block_halted(
    addr: u8,
    class: u8,
    offset: u8,
    cfg: Seq<BusOp>,
    tail: Seq<BusOp>,
    slp: Seq<u32>,
)
    requires
        cfg_entry_ops_ok(addr, cfg),
        block_tail_ops_prefix(addr, class, offset, tail),
        slp == poll_sleeps((cfg.len() - 1) as nat),
    ensures
        block_read_trace_halted(addr, class, offset, cfg + tail, slp),
{
    let ops = cfg + tail;
    let k = cfg.len() as int;
    assert(ops.take(k) =~= cfg);
    assert(ops.skip(k) =~= tail);
    assert(cfg_entry_ops_ok(addr, ops.take(k)));
}

} // verus!
