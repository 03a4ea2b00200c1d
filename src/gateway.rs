//! The TCP gateway's decisions for one client packet. A probe is answered at
//! once; writes are forwarded to the device; reads are served one address
//! at a time, and an address whose transaction fails reads as
//! `READ_FAILED`. The caller performs each device transaction and hands its
//! outcome back.
use vstd::prelude::*;

use crate::bridge::{first_reply_value, read_model, write_model};
use crate::etherbone::{decode_spec, decodes, encode_spec, plain, MAX_SECTION_LEN, Packet};
use crate::Error;

verus! {

/// Identification sent to each client when it connects, without framing.
pub const GREETING: &'static str = "CommFT601:localhost:1234";

/// Value that stands for an address whose read failed.
pub const READ_FAILED: u32 = 0xffff_ffff;

/// USB channel on which the gateway talks to the device.
pub const DEVICE_CHANNEL: u8 = 0;

/// Time allowed for the device to answer one read, in milliseconds.
pub const READ_TIMEOUT_MS: u32 = 100;

/// The value that one read transaction yields: the first value of a
/// response that carries one, and `READ_FAILED` otherwise.
pub open spec fn outcome_value(outcome: Result<Vec<u8>, Error>) -> u32 {
    match outcome {
        Ok(b) => match first_reply_value(b@) {
            Some(v) => v,
            None => READ_FAILED,
        },
        Err(_) => READ_FAILED,
    }
}

/// The value that one read transaction yields.
pub fn read_outcome_value(outcome: &Result<Vec<u8>, Error>) -> (r: u32)
    ensures
        r == outcome_value(*outcome),
{
    match outcome {
        Ok(b) => match crate::bridge::read_reply(b.as_slice()) {
            Ok(v) => v,
            Err(_) => READ_FAILED,
        },
        Err(_) => READ_FAILED,
    }
}

/// The reads of one client packet, served in request order.
pub struct ReadBatch {
    base_ret_addr: u32,
    addrs: Vec<u32>,
    results: Vec<u32>,
}

impl ReadBatch {
    /// Address at which the client expects the values.
    pub closed spec fn base_ret_addr(self) -> u32 {
        self.base_ret_addr
    }

    /// The addresses to read, in request order.
    pub closed spec fn addrs(self) -> Seq<u32> {
        self.addrs@
    }

    /// The values gathered so far, one per address served.
    pub closed spec fn results(self) -> Seq<u32> {
        self.results@
    }

    /// The batch fits one record and has no more values than addresses.
    pub open spec fn wf(self) -> bool {
        &&& self.addrs().len() <= MAX_SECTION_LEN
        &&& self.results().len() <= self.addrs().len()
    }

    /// Every address has its value.
    pub open spec fn complete(self) -> bool {
        self.results().len() == self.addrs().len()
    }

    fn new(base_ret_addr: u32, addrs: Vec<u32>) -> (r: ReadBatch)
        requires
            addrs@.len() <= MAX_SECTION_LEN,
        ensures
            r.wf(),
            r.base_ret_addr() == base_ret_addr,
            r.addrs() == addrs@,
            r.results() == Seq::<u32>::empty(),
    {
        ReadBatch { base_ret_addr, addrs, results: Vec::new() }
    }

    /// Whether every address has been served.
    pub fn is_complete(&self) -> (r: bool)
        requires
            self.wf(),
        ensures
            r == self.complete(),
    {
        self.results.len() == self.addrs.len()
    }

    /// The read request for the next address to serve, if any is left.
    pub fn next_request(&self) -> (r: Option<Vec<u8>>)
        requires
            self.wf(),
        ensures
            r is None <==> self.complete(),
            r matches Some(q) ==> q@ == encode_spec(
                read_model(seq![self.addrs()[self.results().len() as int]]),
            ),
    {
        let i = self.results.len();
        if i < self.addrs.len() {
            Some(crate::bridge::read_request(self.addrs[i]))
        } else {
            None
        }
    }

    /// Takes the outcome of the transaction for the next address. A failed
    /// transaction gives `READ_FAILED` and the batch goes on.
    pub fn record(&mut self, outcome: &Result<Vec<u8>, Error>)
        requires
            old(self).wf(),
            !old(self).complete(),
        ensures
            final(self).wf(),
            final(self).base_ret_addr() == old(self).base_ret_addr(),
            final(self).addrs() == old(self).addrs(),
            final(self).results() == old(self).results().push(outcome_value(*outcome)),
    {
        let v = read_outcome_value(outcome);
        self.results.push(v);
    }

    /// The response to the client: the gathered values as a write record at
    /// the base return address.
    pub fn reply(&self) -> (r: Vec<u8>)
        requires
            self.wf(),
            self.complete(),
        ensures
            r@ == encode_spec(write_model(self.base_ret_addr(), self.results())),
    {
        let mut v: Vec<u32> = Vec::new();
        let mut i: usize = 0;
        while i < self.results.len()
            invariant
                i <= self.results@.len(),
                v@ == self.results@.subrange(0, i as int),
            decreases self.results@.len() - i,
        {
            v.push(self.results[i]);
            i += 1;
            assert(v@ =~= self.results@.subrange(0, i as int));
        }
        assert(v@ =~= self.results@);
        Packet::read_response(self.base_ret_addr, v).encode()
    }
}

/// `write` is the device request for the write record `writes`, if any.
pub open spec fn forwards_writes(write: Option<Vec<u8>>, writes: Option<(u32, Seq<u32>)>) -> bool {
    match writes {
        Some((base, d)) => write matches Some(w) && w@ == encode_spec(write_model(base, d)),
        None => write is None,
    }
}

/// `batch` is a fresh batch for the read record `reads`, if any.
pub open spec fn serves_reads(batch: Option<ReadBatch>, reads: Option<(u32, Seq<u32>)>) -> bool {
    match reads {
        Some((base, a)) => batch matches Some(b) && b.wf() && b.base_ret_addr() == base
            && b.addrs() == a && b.results().len() == 0,
        None => batch is None,
    }
}

/// What the gateway does with one chunk received from a client.
pub enum Step {
    /// The chunk is not a packet: nothing is sent back.
    Ignore,
    /// Answer the client at once, without touching the device.
    Reply(Vec<u8>),
    /// Work for the device: a write request to send, then reads to serve.
    Device { write: Option<Vec<u8>>, reads: Option<ReadBatch> },
}

/// Decides what to do with a chunk received from a client, taken as one
/// packet.
pub fn plan(data: &[u8]) -> (r: Step)
    ensures
        !decodes(data@) ==> r is Ignore,
        decodes(data@) && decode_spec(data@).probe ==> (r matches Step::Reply(q) && q@
            == encode_spec(plain(false, true))),
        decodes(data@) && !decode_spec(data@).probe ==> (r matches Step::Device { write, reads }
            && forwards_writes(write, decode_spec(data@).writes) && serves_reads(
            reads,
            decode_spec(data@).reads,
        )),
{
    let packet = match Packet::decode(data) {
        Some(p) => p,
        None => {
            return Step::Ignore;
        },
    };
    if packet.probe {
        return Step::Reply(Packet::probe_reply().encode());
    }
    let Packet { probe: _, probe_reply: _, writes, reads } = packet;
    let write = match writes {
        Some((base, d)) => {
            assert(d@.len() <= MAX_SECTION_LEN);
            Some(Packet::write_burst(base, d).encode())
        },
        None => None,
    };
    let reads = match reads {
        Some((base, a)) => Some(ReadBatch::new(base, a)),
        None => None,
    };
    Step::Device { write, reads }
}

} // verus!
