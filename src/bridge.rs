//! The register bridge's side of each operation: the request to send and
//! what the response means. Sending and receiving are left to the caller.
use vstd::prelude::*;

use crate::etherbone::{
    decode_spec, decodes, encode_spec, lemma_decode_encode, plain, MAX_SECTION_LEN, Packet,
    PacketModel,
};
use crate::Error;

verus! {

/// Channel used by default for Etherbone traffic.
pub const DEFAULT_CHANNEL: u8 = 0;

/// Time allowed by default for a response, in milliseconds.
pub const DEFAULT_TIMEOUT_MS: u32 = 100;

/// A read of the given addresses, answered at base return address 0.
pub open spec fn read_model(addrs: Seq<u32>) -> PacketModel {
    PacketModel { reads: Some((0, addrs)), ..plain(false, false) }
}

/// A write of `values` from `base` on.
pub open spec fn write_model(base: u32, values: Seq<u32>) -> PacketModel {
    PacketModel { writes: Some((base, values)), ..plain(false, false) }
}

/// The values that the response `b` carries in its write record.
pub open spec fn reply_values(b: Seq<u8>) -> Option<Seq<u32>> {
    if decodes(b) {
        match decode_spec(b).writes {
            Some((_, d)) => Some(d),
            None => None,
        }
    } else {
        None
    }
}

/// The first value that the response `b` carries.
pub open spec fn first_reply_value(b: Seq<u8>) -> Option<u32> {
    match reply_values(b) {
        Some(d) => if d.len() > 0 {
            Some(d[0])
        } else {
            None
        },
        None => None,
    }
}

/// Whether the response `b` is a probe reply.
pub open spec fn is_probe_reply(b: Seq<u8>) -> bool {
    decodes(b) && decode_spec(b).probe_reply
}

/// The request for a read of one register.
pub fn read_request(addr: u32) -> (r: Vec<u8>)
    ensures
        r@ == encode_spec(read_model(seq![addr])),
{
    Packet::read(addr).encode()
}

/// The request for a read of several registers in one round trip, or a
/// protocol error where there are more addresses than a record can hold.
pub fn read_burst_request(addrs: &[u32]) -> (r: Result<Vec<u8>, Error>)
    ensures
        addrs@.len() <= MAX_SECTION_LEN <==> r is Ok,
        r matches Ok(q) ==> q@ == encode_spec(read_model(addrs@)),
        r matches Err(e) ==> e is Protocol,
{
    if addrs.len() > MAX_SECTION_LEN {
        return Err(Error::Protocol("too many addresses for one record".to_owned()));
    }
    let mut v: Vec<u32> = Vec::new();
    let mut i: usize = 0;
    while i < addrs.len()
        invariant
            i <= addrs@.len(),
            v@ == addrs@.subrange(0, i as int),
        decreases addrs@.len() - i,
    {
        v.push(addrs[i]);
        i += 1;
        assert(v@ =~= addrs@.subrange(0, i as int));
    }
    assert(v@ =~= addrs@);
    Ok(Packet::read_burst(v).encode())
}

/// The request for a write of one register.
pub fn write_request(addr: u32, value: u32) -> (r: Vec<u8>)
    ensures
        r@ == encode_spec(write_model(addr, seq![value])),
{
    Packet::write(addr, value).encode()
}

/// The request for a write of consecutive registers from `base_addr` on, or
/// a protocol error where there are more values than a record can hold.
pub fn write_burst_request(base_addr: u32, values: &[u32]) -> (r: Result<Vec<u8>, Error>)
    ensures
        values@.len() <= MAX_SECTION_LEN <==> r is Ok,
        r matches Ok(q) ==> q@ == encode_spec(write_model(base_addr, values@)),
        r matches Err(e) ==> e is Protocol,
{
    if values.len() > MAX_SECTION_LEN {
        return Err(Error::Protocol("too many values for one record".to_owned()));
    }
    let mut v: Vec<u32> = Vec::new();
    let mut i: usize = 0;
    while i < values.len()
        invariant
            i <= values@.len(),
            v@ == values@.subrange(0, i as int),
        decreases values@.len() - i,
    {
        v.push(values[i]);
        i += 1;
        assert(v@ =~= values@.subrange(0, i as int));
    }
    assert(v@ =~= values@);
    Ok(Packet::write_burst(base_addr, v).encode())
}

/// The request for a probe.
pub fn probe_request() -> (r: Vec<u8>)
    ensures
        r@ == encode_spec(plain(true, false)),
{
    Packet::probe_request().encode()
}

/// The register value in the response to a single read: the first value of
/// its write record, or a protocol error where it has none.
pub fn read_reply(response: &[u8]) -> (r: Result<u32, Error>)
    ensures
        r matches Ok(v) ==> first_reply_value(response@) == Some(v),
        r matches Err(e) ==> first_reply_value(response@) is None && e is Protocol,
{
    match Packet::decode(response) {
        Some(p) => match p.get_read_data() {
            Some(d) => {
                if d.len() > 0 {
                    Ok(d[0])
                } else {
                    Err(Error::Protocol("no data in response".to_owned()))
                }
            },
            None => Err(Error::Protocol("no data in response".to_owned())),
        },
        None => Err(Error::Protocol("invalid response packet".to_owned())),
    }
}

/// The values of a response to a burst read of `n` addresses: its write
/// record, where that record holds exactly `n` values.
pub open spec fn burst_reply_values(b: Seq<u8>, n: nat) -> Option<Seq<u32>> {
    match reply_values(b) {
        Some(d) => if d.len() == n {
            Some(d)
        } else {
            None
        },
        None => None,
    }
}

/// The register values in the response to a burst read of `n` addresses,
/// in the order in which the response carries them, or a protocol error
/// where the response carries no write record or one of another length.
pub fn read_burst_reply(response: &[u8], n: usize) -> (r: Result<Vec<u32>, Error>)
    ensures
        r is Ok <==> burst_reply_values(response@, n as nat) is Some,
        r matches Ok(v) ==> burst_reply_values(response@, n as nat) == Some(v@),
        r matches Err(e) ==> e is Protocol,
{
    match Packet::decode(response) {
        Some(p) => match p.get_read_data() {
            Some(d) => {
                if d.len() != n {
                    return Err(Error::Protocol("response length differs from request".to_owned()));
                }
                let mut v: Vec<u32> = Vec::new();
                let mut i: usize = 0;
                while i < d.len()
                    invariant
                        i <= d@.len(),
                        v@ == d@.subrange(0, i as int),
                    decreases d@.len() - i,
                {
                    v.push(d[i]);
                    i += 1;
                    assert(v@ =~= d@.subrange(0, i as int));
                }
                assert(v@ =~= d@);
                Ok(v)
            },
            None => Err(Error::Protocol("no data in response".to_owned())),
        },
        None => Err(Error::Protocol("invalid response packet".to_owned())),
    }
}

/// What a probe's transaction says: a response tells whether it is a probe
/// reply, a timeout means no device answered, and any other failure stays
/// an error.
pub fn probe_outcome(outcome: Result<Vec<u8>, Error>) -> (r: Result<bool, Error>)
    ensures
        outcome matches Ok(b) ==> r == Ok::<bool, Error>(is_probe_reply(b@)),
        outcome matches Err(Error::Timeout) ==> r == Ok::<bool, Error>(false),
        outcome matches Err(e) ==> !(e is Timeout) ==> r == Err::<bool, Error>(e),
{
    match outcome {
        Ok(response) => match Packet::decode(response.as_slice()) {
            Some(p) => Ok(p.probe_reply),
            None => Ok(false),
        },
        Err(Error::Timeout) => Ok(false),
        Err(e) => Err(e),
    }
}

/// When the device answers a burst read of `addrs` with one value per
/// address, in order, reading the reply back for `addrs.len()` addresses
/// gives exactly those values: one per address, in request order.
pub proof fn lemma_burst_reply_echo(addrs: Seq<u32>, base_ret_addr: u32, values: Seq<u32>)
    requires
        0 < addrs.len() <= MAX_SECTION_LEN,
        values.len() == addrs.len(),
    ensures
        burst_reply_values(encode_spec(write_model(base_ret_addr, values)), addrs.len())
            == Some(values),
{
    lemma_decode_encode(write_model(base_ret_addr, values));
}

} // verus!
