//! Driver scenarios against the simulated device: wire traffic of each
//! operation, the config-update poll, the block-memory sequence, and error
//! propagation.

use bq27xxx::Bq27xx;
use bq27xxx::ChemId;
use bq27xxx::DeviceError;
use bq27xxx::DeviceType;
use bq27xxx::SimBus;
use bq27xxx::SimDelay;
use bq27xxx::SimError;
use bq27xxx::Transaction;

const ADDR: u8 = 0x55;

fn gauge(bus: SimBus) -> Bq27xx<SimBus, SimDelay> {
    Bq27xx::new(bus, SimDelay::new())
}

fn assert_write(t: &Transaction, addr: u8, data: &[u8]) {
    match t {
        Transaction::Write { addr: a, data: d } => {
            assert_eq!(*a, addr);
            assert_eq!(d.as_slice(), data);
        }
        _ => panic!("expected a plain write"),
    }
}

fn assert_write_read(t: &Transaction, addr: u8, request: &[u8], response: &[u8]) {
    match t {
        Transaction::WriteRead { addr: a, request: q, response: r } => {
            assert_eq!(*a, addr);
            assert_eq!(q.as_slice(), request);
            assert_eq!(r.as_slice(), response);
        }
        _ => panic!("expected a write-then-read"),
    }
}

#[test]
fn command_read_decodes_little_endian() {
    let mut bus = SimBus::new();
    bus.push_response(vec![0x34, 0x12]);
    let mut g = gauge(bus);
    assert_eq!(g.voltage().unwrap(), 0x1234);
    let (bus, delay) = g.release();
    assert_eq!(bus.records.len(), 1);
    assert_write_read(&bus.records[0], ADDR, &[0x04], &[0x34, 0x12]);
    assert!(delay.history.is_empty());
}

#[test]
fn direct_accessors_use_their_registers() {
    let mut bus = SimBus::new();
    bus.push_response(vec![0x5E, 0x00]); // state of charge: 94 %
    bus.push_response(vec![0x2C, 0x0B]); // temperature raw
    bus.push_response(vec![0x10, 0x00]); // average current
    bus.push_response(vec![0x00, 0x01]); // flags
    let mut g = gauge(bus);
    assert_eq!(g.state_of_charge().unwrap(), 94);
    assert_eq!(g.temperature().unwrap(), 0x0B2C);
    assert_eq!(g.average_current().unwrap(), 0x0010);
    assert_eq!(g.get_flags().unwrap(), 0x0100);
    let (bus, _) = g.release();
    assert_eq!(bus.records.len(), 4);
    assert_write_read(&bus.records[0], ADDR, &[0x1C], &[0x5E, 0x00]);
    assert_write_read(&bus.records[1], ADDR, &[0x02], &[0x2C, 0x0B]);
    assert_write_read(&bus.records[2], ADDR, &[0x10], &[0x10, 0x00]);
    assert_write_read(&bus.records[3], ADDR, &[0x06], &[0x00, 0x01]);
}

#[test]
fn control_read_is_two_transactions_in_order() {
    let mut bus = SimBus::new();
    bus.push_response(vec![0xCD, 0xAB]);
    let mut g = gauge(bus);
    assert_eq!(g.read_control(0x0002).unwrap(), 0xABCD);
    let (bus, _) = g.release();
    assert_eq!(bus.records.len(), 2);
    assert_write(&bus.records[0], ADDR, &[0x00, 0x02, 0x00]);
    assert_write_read(&bus.records[1], ADDR, &[0x00], &[0xCD, 0xAB]);
}

#[test]
fn probe_decodes_device_type() {
    let mut bus = SimBus::new();
    bus.push_response(vec![0x27, 0x04]);
    let mut g = gauge(bus);
    assert_eq!(g.probe().unwrap(), DeviceType::BQ27427);
    let (bus, _) = g.release();
    assert_write(&bus.records[0], ADDR, &[0x00, 0x01, 0x00]);
    assert_write_read(&bus.records[1], ADDR, &[0x00], &[0x27, 0x04]);
}

#[test]
fn get_chem_id_decodes_profile() {
    let mut bus = SimBus::new();
    bus.push_response(vec![0x30, 0x32]);
    let mut g = gauge(bus);
    assert_eq!(g.get_chem_id().unwrap(), ChemId::A4350);
    let (bus, _) = g.release();
    assert_write(&bus.records[0], ADDR, &[0x00, 0x08, 0x00]);
}

#[test]
fn resets_are_single_control_writes() {
    let mut g = gauge(SimBus::new());
    g.reset().unwrap();
    g.soft_reset().unwrap();
    let (bus, _) = g.release();
    assert_eq!(bus.records.len(), 2);
    assert_write(&bus.records[0], ADDR, &[0x00, 0x41, 0x00]);
    assert_write(&bus.records[1], ADDR, &[0x00, 0x42, 0x00]);
}

#[test]
fn fw_version_reads_control() {
    let mut bus = SimBus::new();
    bus.push_response(vec![0x09, 0x01]);
    let mut g = gauge(bus);
    assert_eq!(g.fw_version().unwrap(), 0x0109);
    let (bus, _) = g.release();
    assert_write(&bus.records[0], ADDR, &[0x00, 0x02, 0x00]);
}

#[test]
fn explicit_address_reaches_the_bus() {
    let mut bus = SimBus::new();
    bus.push_response(vec![0x01, 0x00]);
    let mut g = Bq27xx::new_with_address(bus, SimDelay::new(), 0x2A);
    assert_eq!(g.voltage().unwrap(), 1);
    let (bus, _) = g.release();
    assert_write_read(&bus.records[0], 0x2A, &[0x04], &[0x01, 0x00]);
}

#[test]
fn unseal_and_seal_touch_no_bus() {
    let mut g = gauge(SimBus::new());
    g.unseal().unwrap();
    g.seal().unwrap();
    let (bus, delay) = g.release();
    assert!(bus.records.is_empty());
    assert!(delay.history.is_empty());
}

fn flags_with_cfgupdate_bit() -> Vec<u8> {
    vec![0x10, 0x00]
}

#[test]
fn cfgupdate_succeeds_after_first_poll() {
    let mut bus = SimBus::new();
    bus.push_response(flags_with_cfgupdate_bit());
    let mut g = gauge(bus);
    g.mode_cfgupdate().unwrap();
    let (bus, delay) = g.release();
    assert_eq!(bus.records.len(), 2);
    assert_write(&bus.records[0], ADDR, &[0x00, 0x13, 0x00]);
    assert_write_read(&bus.records[1], ADDR, &[0x06], &[0x10, 0x00]);
    assert_eq!(delay.history, vec![500]);
}

#[test]
fn cfgupdate_succeeds_after_nth_poll() {
    let n = 7;
    let mut bus = SimBus::new();
    for _ in 0..n - 1 {
        bus.push_response(vec![0x00, 0x00]);
    }
    bus.push_response(flags_with_cfgupdate_bit());
    let mut g = gauge(bus);
    g.mode_cfgupdate().unwrap();
    let (bus, delay) = g.release();
    assert_eq!(bus.records.len(), 1 + n);
    for i in 0..n - 1 {
        assert_write_read(&bus.records[1 + i], ADDR, &[0x06], &[0x00, 0x00]);
    }
    assert_write_read(&bus.records[n], ADDR, &[0x06], &[0x10, 0x00]);
    assert_eq!(delay.history.len(), n);
    assert!(delay.history.iter().all(|ms| *ms == 500));
}

#[test]
fn cfgupdate_succeeds_on_last_allowed_poll() {
    let mut bus = SimBus::new();
    for _ in 0..9 {
        bus.push_response(vec![0x00, 0x00]);
    }
    bus.push_response(flags_with_cfgupdate_bit());
    let mut g = gauge(bus);
    g.mode_cfgupdate().unwrap();
    let (bus, delay) = g.release();
    assert_eq!(bus.records.len(), 11);
    assert_eq!(delay.history.len(), 10);
}

#[test]
fn cfgupdate_times_out_after_ten_reads() {
    // An unscripted read answers all-zero flags: the bit never appears.
    let mut g = gauge(SimBus::new());
    let r = g.mode_cfgupdate();
    assert!(matches!(r, Err(DeviceError::PollTimeout)));
    let (bus, delay) = g.release();
    assert_eq!(bus.records.len(), 11); // the control write, then 10 reads
    assert_write(&bus.records[0], ADDR, &[0x00, 0x13, 0x00]);
    for i in 1..11 {
        assert_write_read(&bus.records[i], ADDR, &[0x06], &[0x00, 0x00]);
    }
    assert_eq!(delay.history.len(), 10);
}

#[test]
fn set_chem_id_unknown_rejected_before_any_traffic() {
    let mut g = gauge(SimBus::new());
    let r = g.set_chem_id(ChemId::Unknown);
    assert!(r.is_err());
    let (bus, delay) = g.release();
    assert!(bus.records.is_empty());
    assert!(delay.history.is_empty());
}

#[test]
fn set_chem_id_writes_profile_then_soft_reset() {
    let mut bus = SimBus::new();
    bus.push_response(flags_with_cfgupdate_bit());
    let mut g = gauge(bus);
    g.set_chem_id(ChemId::B4200).unwrap();
    let (bus, _) = g.release();
    assert_eq!(bus.records.len(), 4);
    assert_write(&bus.records[0], ADDR, &[0x00, 0x13, 0x00]);
    assert_write_read(&bus.records[1], ADDR, &[0x06], &[0x10, 0x00]);
    assert_write(&bus.records[2], ADDR, &[0x00, 0x31, 0x00]);
    assert_write(&bus.records[3], ADDR, &[0x00, 0x42, 0x00]);
}

#[test]
fn set_chem_id_propagates_poll_timeout() {
    let mut g = gauge(SimBus::new());
    let r = g.set_chem_id(ChemId::C4400);
    assert!(matches!(r, Err(DeviceError::PollTimeout)));
    let (bus, _) = g.release();
    assert_eq!(bus.records.len(), 11);
}

fn capacity_script(bus: &mut SimBus) {
    bus.push_response(flags_with_cfgupdate_bit()); // flags poll
    bus.push_response(vec![0x2A]); // block checksum
    bus.push_response(vec![0x10, 0x27]); // 10000, little-endian
}

fn assert_capacity_step(t: &Transaction, i: usize) {
    match i {
        0 => assert_write(t, ADDR, &[0x00, 0x13, 0x00]), // SET_CFGUPDATE
        1 => assert_write_read(t, ADDR, &[0x06], &[0x10, 0x00]), // flags poll
        2 => assert_write(t, ADDR, &[0x61, 0x00]), // block protection off
        3 => assert_write(t, ADDR, &[0x3E, 0x52]), // class STATE
        4 => assert_write(t, ADDR, &[0x3F, 0x00]), // block 6 / 32
        5 => assert_write_read(t, ADDR, &[0x60], &[0x2A]), // checksum byte
        6 => assert_write_read(t, ADDR, &[0x46], &[0x10, 0x27]), // value
        7 => assert_write(t, ADDR, &[0x00, 0x42, 0x00]), // SOFT_RESET
        _ => panic!("no transaction expected at index {}", i),
    }
}

#[test]
fn get_capacity_runs_the_block_sequence() {
    let mut bus = SimBus::new();
    capacity_script(&mut bus);
    let mut g = gauge(bus);
    assert_eq!(g.get_capacity().unwrap(), 10000);
    let (bus, delay) = g.release();
    assert_eq!(bus.records.len(), 8);
    for (i, t) in bus.records.iter().enumerate() {
        assert_capacity_step(t, i);
    }
    assert_eq!(delay.history, vec![500]);
}

#[test]
fn get_capacity_propagates_poll_timeout() {
    // No scripted flags: the config-update bit never appears, so the block
    // sequence never goes past the entry poll.
    let mut g = gauge(SimBus::new());
    let r = g.get_capacity();
    assert!(matches!(r, Err(DeviceError::PollTimeout)));
    let (bus, delay) = g.release();
    assert_eq!(bus.records.len(), 11); // the control write, then 10 reads
    assert_eq!(delay.history.len(), 10);
}

#[test]
fn block_read_failure_halts_the_sequence() {
    // Inject a transport failure at each step in turn: the error must
    // surface as TransportError and nothing past the failing transaction
    // may run.
    for k in 0..8 {
        let mut bus = SimBus::new();
        capacity_script(&mut bus);
        bus.inject_failure(k);
        let mut g = gauge(bus);
        let r = g.get_capacity();
        assert!(matches!(r, Err(DeviceError::TransportError(SimError))));
        let (bus, _) = g.release();
        assert_eq!(bus.records.len(), k, "failure at step {}", k);
        for (i, t) in bus.records.iter().enumerate() {
            assert_capacity_step(t, i);
        }
    }
}

#[test]
fn transport_error_propagates_from_direct_read() {
    let mut bus = SimBus::new();
    bus.inject_failure(0);
    let mut g = gauge(bus);
    let r = g.voltage();
    assert!(matches!(r, Err(DeviceError::TransportError(SimError))));
    let (bus, _) = g.release();
    assert!(bus.records.is_empty());
}

#[test]
fn transport_error_propagates_from_control_read() {
    // Fail the second transaction: the select write lands, the fetch does
    // not.
    let mut bus = SimBus::new();
    bus.inject_failure(1);
    let mut g = gauge(bus);
    let r = g.read_control(0x0008);
    assert!(matches!(r, Err(DeviceError::TransportError(SimError))));
    let (bus, _) = g.release();
    assert_eq!(bus.records.len(), 1);
    assert_write(&bus.records[0], ADDR, &[0x00, 0x08, 0x00]);
}
