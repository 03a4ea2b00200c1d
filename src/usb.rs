//! Stream framing over the USB FIFO: each payload travels behind a preamble,
//! a channel number and a length, all little-endian 32-bit words.
use vstd::prelude::*;

verus! {

/// Marker that opens every frame.
pub const STREAM_PREAMBLE: u32 = 0x5aa55aa5;

/// Size of a frame header: preamble, channel and length.
pub const STREAM_HEADER_SIZE: usize = 12;

/// A USB device found on the bus, as shown to users.
#[derive(Debug, Clone)]
pub struct DeviceInfo {
    pub description: String,
    pub serial: String,
}

/// The four bytes of `v`, least significant first.
pub open spec fn le_bytes(v: u32) -> Seq<u8> {
    seq![v as u8, (v >> 8u32) as u8, (v >> 16u32) as u8, (v >> 24u32) as u8]
}

/// The little-endian word stored at `at` in `b`.
pub open spec fn le_word_at(b: Seq<u8>, at: int) -> u32 {
    (b[at] as u32) | ((b[at + 1] as u32) << 8u32) | ((b[at + 2] as u32) << 16u32) | ((b[at
        + 3] as u32) << 24u32)
}

/// The bytes of a frame that carries `payload` on `channel`.
pub open spec fn wrap_spec(channel: u8, payload: Seq<u8>) -> Seq<u8> {
    le_bytes(STREAM_PREAMBLE) + le_bytes(channel as u32) + le_bytes(payload.len() as u32)
        + payload
}

/// The preamble starts at offset `i` of `b`.
pub open spec fn preamble_at(b: Seq<u8>, i: int) -> bool {
    &&& 0 <= i
    &&& i + 4 <= b.len()
    &&& b.subrange(i, i + 4) == le_bytes(STREAM_PREAMBLE)
}

/// Length that the header at offset `i` declares.
pub open spec fn declared_len(b: Seq<u8>, i: int) -> int {
    le_word_at(b, i + 8) as int
}

/// A whole frame starts at offset `i`: preamble, full header, and as many
/// payload bytes as the header declares.
pub open spec fn frame_at(b: Seq<u8>, i: int) -> bool {
    &&& preamble_at(b, i)
    &&& i + 12 <= b.len()
    &&& i + 12 + declared_len(b, i) <= b.len()
}

/// Channel and payload of the frame at offset `i`.
pub open spec fn frame_content(b: Seq<u8>, i: int) -> (u8, Seq<u8>) {
    (b[i + 4], b.subrange(i + 12, i + 12 + declared_len(b, i)))
}

/// The first whole frame whose header starts at offset `i` or later.
pub open spec fn unwrap_from(b: Seq<u8>, i: int) -> Option<(u8, Seq<u8>)>
    decreases b.len() - i,
{
    if i < 0 || i + 12 > b.len() {
        None
    } else if frame_at(b, i) {
        Some(frame_content(b, i))
    } else {
        unwrap_from(b, i + 1)
    }
}

/// The first whole frame in `b`, if any.
pub open spec fn unwrap_spec(b: Seq<u8>) -> Option<(u8, Seq<u8>)> {
    unwrap_from(b, 0)
}

proof fn lemma_preamble_bytes()
    ensures
        le_bytes(STREAM_PREAMBLE) == seq![0xa5u8, 0x5au8, 0xa5u8, 0x5au8],
{
    let v = STREAM_PREAMBLE;
    assert(v as u8 == 0xa5u8 && (v >> 8u32) as u8 == 0x5au8 && (v >> 16u32) as u8 == 0xa5u8 && (v
        >> 24u32) as u8 == 0x5au8) by (bit_vector)
        requires
            v == 0x5aa55aa5u32,
    ;
    assert(le_bytes(STREAM_PREAMBLE) =~= seq![0xa5u8, 0x5au8, 0xa5u8, 0x5au8]);
}

proof fn lemma_le_round_trip(v: u32)
    ensures
        le_word_at(le_bytes(v), 0) == v,
        v < 256 ==> le_bytes(v)[0] == v,
{
    assert((((v as u8) as u32) | ((((v >> 8u32) as u8) as u32) << 8u32) | ((((v >> 16u32) as u8)
        as u32) << 16u32) | ((((v >> 24u32) as u8) as u32) << 24u32)) == v) by (bit_vector);
    assert(v < 256 ==> (v as u8) as u32 == v) by (bit_vector);
}

/// Offsets `i..k` hold no whole frame, so the scan from `i` goes on at `k`.
proof fn lemma_unwrap_skip(b: Seq<u8>, i: int, k: int)
    requires
        0 <= i <= k,
        k + 12 <= b.len(),
        forall|j: int| i <= j < k ==> !frame_at(b, j),
    ensures
        unwrap_from(b, i) == unwrap_from(b, k),
    decreases k - i,
{
    if i < k {
        lemma_unwrap_skip(b, i + 1, k);
    }
}

/// A frame placed after bytes in which no preamble starts is found, with its
/// channel and payload unchanged.
pub proof fn lemma_unwrap_after_garbage(garbage: Seq<u8>, channel: u8, payload: Seq<u8>)
    requires
        payload.len() <= u32::MAX,
        forall|i: int|
            0 <= i < garbage.len() ==> !preamble_at(garbage + wrap_spec(channel, payload), i),
    ensures
        unwrap_spec(garbage + wrap_spec(channel, payload)) == Some((channel, payload)),
{
    let f = wrap_spec(channel, payload);
    let b = garbage + f;
    let k = garbage.len() as int;
    lemma_le_round_trip(channel as u32);
    lemma_le_round_trip(payload.len() as u32);
    assert(b.subrange(k, k + 4) =~= le_bytes(STREAM_PREAMBLE));
    assert(b.subrange(k + 8, k + 12) =~= le_bytes(payload.len() as u32));
    assert(declared_len(b, k) == payload.len());
    assert(b[k + 4] == le_bytes(channel as u32)[0]);
    assert(b.subrange(k + 12, k + 12 + payload.len()) =~= payload);
    assert(frame_at(b, k));
    lemma_unwrap_skip(b, 0, k);
}

/// A framed payload is recovered with its channel.
pub proof fn lemma_unwrap_wrap(channel: u8, payload: Seq<u8>)
    requires
        payload.len() <= u32::MAX,
    ensures
        unwrap_spec(wrap_spec(channel, payload)) == Some((channel, payload)),
{
    lemma_unwrap_after_garbage(Seq::empty(), channel, payload);
    assert(Seq::<u8>::empty() + wrap_spec(channel, payload) =~= wrap_spec(channel, payload));
}

proof fn lemma_no_whole_frame_from(b: Seq<u8>, i: int)
    requires
        forall|j: int|
            preamble_at(b, j) && j + 12 <= b.len() ==> j + 12 + declared_len(b, j) > b.len(),
    ensures
        unwrap_from(b, i) is None,
    decreases b.len() - i,
{
    if 0 <= i && i + 12 <= b.len() {
        lemma_no_whole_frame_from(b, i + 1);
    }
}

/// Where every header in `b` declares more payload than follows it, no
/// frame is found.
pub proof fn lemma_short_payload_not_found(b: Seq<u8>)
    requires
        forall|j: int|
            preamble_at(b, j) && j + 12 <= b.len() ==> j + 12 + declared_len(b, j) > b.len(),
    ensures
        unwrap_spec(b) is None,
{
    lemma_no_whole_frame_from(b, 0);
}

fn push_le(buf: &mut Vec<u8>, v: u32)
    ensures
        final(buf)@ == old(buf)@ + le_bytes(v),
{
    buf.push(v as u8);
    buf.push((v >> 8u32) as u8);
    buf.push((v >> 16u32) as u8);
    buf.push((v >> 24u32) as u8);
    assert(final(buf)@ =~= old(buf)@ + le_bytes(v));
}

fn read_le(data: &[u8], at: usize) -> (r: u32)
    requires
        at + 4 <= data@.len(),
    ensures
        r == le_word_at(data@, at as int),
{
    (data[at] as u32) | ((data[at + 1] as u32) << 8u32) | ((data[at + 2] as u32) << 16u32) | ((
    data[at + 3] as u32) << 24u32)
}

/// Puts the frame header for `payload` on `channel` in front of it.
pub fn wrap_packet(channel: u8, payload: &[u8]) -> (r: Vec<u8>)
    requires
        payload@.len() <= u32::MAX,
    ensures
        r@ == wrap_spec(channel, payload@),
{
    let mut buf: Vec<u8> = Vec::new();
    push_le(&mut buf, STREAM_PREAMBLE);
    push_le(&mut buf, channel as u32);
    push_le(&mut buf, payload.len() as u32);
    let ghost header = buf@;
    let mut i: usize = 0;
    while i < payload.len()
        invariant
            i <= payload@.len(),
            buf@ == header + payload@.subrange(0, i as int),
        decreases payload@.len() - i,
    {
        buf.push(payload[i]);
        i += 1;
        assert(buf@ =~= header + payload@.subrange(0, i as int));
    }
    assert(buf@ =~= wrap_spec(channel, payload@));
    buf
}

/// Finds the first whole frame in `data`, scanning from its start, and
/// returns its channel and payload. Bytes before a frame are skipped; a
/// header whose declared payload runs past the end of `data` is passed over.
pub fn unwrap_packet(data: &[u8]) -> (r: Option<(u8, Vec<u8>)>)
    ensures
        r matches Some((c, p)) ==> unwrap_spec(data@) == Some((c, p@)),
        r is None ==> unwrap_spec(data@) is None,
{
    proof {
        lemma_preamble_bytes();
    }
    let len = data.len();
    if len < STREAM_HEADER_SIZE {
        return None;
    }
    let mut i: usize = 0;
    while i <= len - STREAM_HEADER_SIZE
        invariant
            len == data@.len(),
            len >= 12,
            i <= len - 11,
            unwrap_from(data@, 0) == unwrap_from(data@, i as int),
            le_bytes(STREAM_PREAMBLE) == seq![0xa5u8, 0x5au8, 0xa5u8, 0x5au8],
        decreases len - i,
    {
        let found = data[i] == 0xa5 && data[i + 1] == 0x5a && data[i + 2] == 0xa5 && data[i + 3]
            == 0x5a;
        assert(found == preamble_at(data@, i as int)) by {
            if found {
                assert(data@.subrange(i as int, i + 4) =~= le_bytes(STREAM_PREAMBLE));
            }
        }
        if found {
            let channel = data[i + 4];
            let n = read_le(data, i + 8) as usize;
            let start = i + STREAM_HEADER_SIZE;
            if n <= len - start {
                let mut payload: Vec<u8> = Vec::new();
                let mut k: usize = 0;
                while k < n
                    invariant
                        k <= n,
                        len == data@.len(),
                        start + n <= data@.len(),
                        payload@ == data@.subrange(start as int, start + k),
                    decreases n - k,
                {
                    payload.push(data[start + k]);
                    k += 1;
                    assert(payload@ =~= data@.subrange(start as int, start + k));
                }
                return Some((channel, payload));
            }
        }
        i += 1;
    }
    None
}

} // verus!
