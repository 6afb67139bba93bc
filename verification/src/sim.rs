//! A simulated device: verified implementations of [`Bus`] and [`Delay`]
//! that record every transaction, answer reads from a script, and can be
//! told to fail an upcoming transaction. They stand in for a real
//! peripheral wherever the driver is exercised off the hardware.

use vstd::prelude::*;

use crate::bus::Bus;
use crate::bus::BusOp;
use crate::bus::Delay;

verus! {

/// The simulated bus's native error: a refused transaction.
#[derive(Clone, Copy, Debug, PartialEq, Eq, Structural)]
pub struct SimError;

/// A concrete record of one completed transaction, the executable mirror of
/// [`BusOp`].
#[derive(Debug)]
pub enum Transaction {
    Write { addr: u8, data: Vec<u8> },
    WriteRead { addr: u8, request: Vec<u8>, response: Vec<u8> },
}

impl View for Transaction {
    type V = BusOp;

    open spec fn view(&self) -> BusOp {
        match self {
            Transaction::Write { addr, data } => BusOp::Write { addr: *addr, data: data@ },
            Transaction::WriteRead { addr, request, response } => BusOp::WriteRead {
                addr: *addr,
                request: request@,
                response: response@,
            },
        }
    }
}

/// The abstract log a record sequence stands for.
pub open spec fn log_of(records: Seq<Transaction>) -> Seq<BusOp> {
    records.map_values(|t: Transaction| t@)
}

proof fn lemma_log_of_push(pre: Seq<Transaction>, t: Transaction)
    ensures
        log_of(pre.push(t)) == log_of(pre).push(t@),
{
    assert(log_of(pre.push(t)) =~= log_of(pre).push(t@));
}

/// Byte-for-byte copy of a buffer.
fn copy_bytes(src: &Vec<u8>) -> (r: Vec<u8>)
    ensures
        r@ == src@,
{
    let mut out: Vec<u8> = Vec::new();
    let mut i: usize = 0;
    while i < src.len()
        invariant
            i <= src@.len(),
            out@ == src@.take(i as int),
        decreases src@.len() - i,
    {
        out.push(src[i]);
        proof {
            assert(src@.take((i + 1) as int) =~= src@.take(i as int).push(src@[i as int]));
        }
        i = i + 1;
    }
    proof {
        assert(src@.take(src@.len() as int) =~= src@);
    }
    out
}

/// The simulated register bus.
pub struct SimBus {
    /// Completed transactions, oldest first.
    pub records: Vec<Transaction>,
    /// Scripted responses for upcoming reads, consumed front to back. A
    /// read beyond the script (or beyond a scripted buffer's length) is
    /// answered with zero bytes.
    pub responses: Vec<Vec<u8>>,
    /// Index of the next scripted response to serve.
    pub cursor: usize,
    /// `Some(k)`: the k-th upcoming transaction attempt (zero meaning the
    /// very next) is refused with [`SimError`] and completes nothing.
    pub fail_in: Option<usize>,
}

impl SimBus {
    /// A quiet bus: nothing recorded, nothing scripted, no failure armed.
    pub fn new() -> (r: SimBus)
        ensures
            r.log() == Seq::<BusOp>::empty(),
            r.records@.len() == 0,
            r.responses@.len() == 0,
            r.cursor == 0,
            r.fail_in is None,
    {
        let r = SimBus { records: Vec::new(), responses: Vec::new(), cursor: 0, fail_in: None };
        proof {
            assert(log_of(r.records@) =~= Seq::<BusOp>::empty());
        }
        r
    }

    /// Script the response of the next unanswered read.
    pub fn push_response(&mut self, response: Vec<u8>)
        ensures
            final(self).log() == old(self).log(),
            final(self).records@ == old(self).records@,
            final(self).responses@ == old(self).responses@.push(response),
            final(self).cursor == old(self).cursor,
            final(self).fail_in == old(self).fail_in,
    {
        self.responses.push(response);
    }

    /// Arm a failure: the k-th upcoming transaction attempt (zero meaning
    /// the very next) will be refused.
    pub fn inject_failure(&mut self, k: usize)
        ensures
            final(self).log() == old(self).log(),
            final(self).records@ == old(self).records@,
            final(self).responses@ == old(self).responses@,
            final(self).cursor == old(self).cursor,
            final(self).fail_in == Some(k),
    {
        self.fail_in = Some(k);
    }

    /// Count down the armed failure; report whether this attempt is the one
    /// that fails.
    fn take_failure(&mut self) -> (failed: bool)
        ensures
            final(self).records@ == old(self).records@,
            final(self).responses@ == old(self).responses@,
            final(self).cursor == old(self).cursor,
            failed <==> (old(self).fail_in matches Some(k) && k == 0),
    {
        match self.fail_in {
            Some(k) => {
                if k == 0 {
                    self.fail_in = None;
                    true
                } else {
                    self.fail_in = Some(k - 1);
                    false
                }
            },
            None => false,
        }
    }
}

impl Bus for SimBus {
    type BusError = SimError;

    open spec fn log(&self) -> Seq<BusOp> {
        log_of(self.records@)
    }

    fn write_bytes(&mut self, addr: u8, data: &Vec<u8>) -> (r: Result<(), SimError>) {
        if self.take_failure() {
            return Err(SimError);
        }
        let t = Transaction::Write { addr, data: copy_bytes(data) };
        proof {
            lemma_log_of_push(self.records@, t);
        }
        self.records.push(t);
        Ok(())
    }

    fn write_then_read(&mut self, addr: u8, request: &Vec<u8>, response: &mut Vec<u8>) -> (r:
        Result<(), SimError>) {
        if self.take_failure() {
            return Err(SimError);
        }
        let n = response.len();
        let has_script = self.cursor < self.responses.len();
        let mut out: Vec<u8> = Vec::new();
        let mut i: usize = 0;
        while i < n
            invariant
                i <= n,
                out@.len() == i,
                has_script ==> self.cursor < self.responses@.len(),
            decreases n - i,
        {
            let b: u8 = if has_script && i < self.responses[self.cursor].len() {
                self.responses[self.cursor][i]
            } else {
                0
            };
            out.push(b);
            i = i + 1;
        }
        if has_script {
            self.cursor = self.cursor + 1;
        }
        let recorded = copy_bytes(&out);
        let t = Transaction::WriteRead { addr, request: copy_bytes(request), response: recorded };
        proof {
            lemma_log_of_push(self.records@, t);
        }
        self.records.push(t);
        *response = out;
        Ok(())
    }
}

/// The simulated delay handle: it sleeps by taking notes.
pub struct SimDelay {
    /// Every sleep asked of it, in milliseconds, oldest first.
    pub history: Vec<u32>,
}

impl SimDelay {
    /// A fresh handle with an empty history.
    pub fn new() -> (r: SimDelay)
        ensures
            r.history@ == Seq::<u32>::empty(),
    {
        SimDelay { history: Vec::new() }
    }
}

impl Delay for SimDelay {
    open spec fn sleeps(&self) -> Seq<u32> {
        self.history@
    }

    fn delay_ms(&mut self, ms: u32) {
        self.history.push(ms);
    }
}

} // verus!
