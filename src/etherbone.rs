//! Etherbone packets with fixed 32-bit addressing: one optional write record
//! and one optional read record per packet.
use vstd::prelude::*;

verus! {

/// Magic number that opens every packet (big-endian on the wire).
pub const MAGIC: u16 = 0x4e6f;

/// Protocol version carried in the upper nibble of the flags byte.
pub const VERSION: u8 = 1;

/// Length of the packet header.
pub const PACKET_HEADER_LEN: usize = 8;

/// Length of the record header.
pub const RECORD_HEADER_LEN: usize = 4;

/// Largest number of entries in one section: its count is a single byte.
pub const MAX_SECTION_LEN: usize = 255;

/// One Etherbone message.
#[derive(Debug, Clone)]
pub struct Packet {
    /// Asks the peer for a probe reply.
    pub probe: bool,
    /// Marks a reply to a probe.
    pub probe_reply: bool,
    /// Write record: base address and the values written from there on.
    pub writes: Option<(u32, Vec<u32>)>,
    /// Read record: base return address and the addresses to read.
    pub reads: Option<(u32, Vec<u32>)>,
}

/// What a packet means, with its sections as sequences.
pub ghost struct PacketModel {
    pub probe: bool,
    pub probe_reply: bool,
    pub writes: Option<(u32, Seq<u32>)>,
    pub reads: Option<(u32, Seq<u32>)>,
}

/// A section with its values as a sequence.
pub open spec fn section_view(s: Option<(u32, Vec<u32>)>) -> Option<(u32, Seq<u32>)> {
    match s {
        Some((a, d)) => Some((a, d@)),
        None => None,
    }
}

impl View for Packet {
    type V = PacketModel;

    open spec fn view(&self) -> PacketModel {
        PacketModel {
            probe: self.probe,
            probe_reply: self.probe_reply,
            writes: section_view(self.writes),
            reads: section_view(self.reads),
        }
    }
}

/// Number of entries of a section, zero when it is absent.
pub open spec fn section_count(s: Option<(u32, Seq<u32>)>) -> nat {
    match s {
        Some((_, d)) => d.len(),
        None => 0,
    }
}

impl PacketModel {
    /// Each section's count fits in its one-byte field.
    pub open spec fn fits_wire(self) -> bool {
        section_count(self.writes) <= MAX_SECTION_LEN && section_count(self.reads)
            <= MAX_SECTION_LEN
    }

    /// A probe or probe reply without records: encoded as the header alone.
    pub open spec fn is_bare_probe(self) -> bool {
        (self.probe || self.probe_reply) && self.writes is None && self.reads is None
    }
}

/// The four bytes of `v`, most significant first.
pub open spec fn be_bytes(v: u32) -> Seq<u8> {
    seq![(v >> 24u32) as u8, (v >> 16u32) as u8, (v >> 8u32) as u8, v as u8]
}

/// The big-endian word made of four bytes.
pub open spec fn be_word(b0: u8, b1: u8, b2: u8, b3: u8) -> u32 {
    ((b0 as u32) << 24u32) | ((b1 as u32) << 16u32) | ((b2 as u32) << 8u32) | (b3 as u32)
}

/// The big-endian word stored at `at` in `b`.
pub open spec fn be_word_at(b: Seq<u8>, at: int) -> u32 {
    be_word(b[at], b[at + 1], b[at + 2], b[at + 3])
}

/// `n` consecutive big-endian words of `b`, starting at `start`.
pub open spec fn be_words_at(b: Seq<u8>, start: int, n: nat) -> Seq<u32> {
    Seq::new(n, |k: int| be_word_at(b, start + 4 * k))
}

/// The words of `d`, each as four big-endian bytes.
pub open spec fn words_bytes(d: Seq<u32>) -> Seq<u8> {
    Seq::new(4 * d.len(), |i: int| be_bytes(d[i / 4])[i % 4])
}

/// The flags byte: version in the upper nibble, then probe reply and probe bits.
pub open spec fn flags_byte(probe: bool, probe_reply: bool) -> u8 {
    (VERSION << 4u8) | (if probe_reply {
        2u8
    } else {
        0u8
    }) | (if probe {
        1u8
    } else {
        0u8
    })
}

/// The packet header: magic, flags, address and port sizes, padding.
pub open spec fn header_bytes(probe: bool, probe_reply: bool) -> Seq<u8> {
    seq![0x4eu8, 0x6fu8, flags_byte(probe, probe_reply), 0x44u8, 0u8, 0u8, 0u8, 0u8]
}

/// A section on the wire: its base address, then its words.
pub open spec fn section_bytes(s: Option<(u32, Seq<u32>)>) -> Seq<u8> {
    match s {
        Some((a, d)) => be_bytes(a) + words_bytes(d),
        None => Seq::empty(),
    }
}

/// The bytes that encode packet `p`.
pub open spec fn encode_spec(p: PacketModel) -> Seq<u8> {
    let header = header_bytes(p.probe, p.probe_reply);
    if p.is_bare_probe() {
        header
    } else {
        header + seq![
            0x00u8,
            0x0fu8,
            section_count(p.writes) as u8,
            section_count(p.reads) as u8,
        ] + section_bytes(p.writes) + section_bytes(p.reads)
    }
}

/// Offset of the read section in a packet of at least 12 bytes.
pub open spec fn reads_offset(b: Seq<u8>) -> int {
    if b[10] > 0 {
        16 + 4 * b[10]
    } else {
        12
    }
}

/// Whether `b` holds a packet: a header with the right magic, then either
/// nothing or a record header whose sections lie within `b`.
pub open spec fn decodes(b: Seq<u8>) -> bool {
    &&& b.len() >= 8
    &&& b[0] == 0x4e && b[1] == 0x6f
    &&& b.len() != 8 ==> {
        &&& b.len() >= 12
        &&& b[10] > 0 ==> b.len() >= 16 + 4 * b[10]
        &&& b[11] > 0 ==> b.len() >= reads_offset(b) + 4 + 4 * b[11]
    }
}

/// The packet that `b` holds, where `decodes(b)`.
pub open spec fn decode_spec(b: Seq<u8>) -> PacketModel {
    let probe = b[2] & 1u8 != 0;
    let probe_reply = b[2] & 2u8 != 0;
    if b.len() == 8 {
        PacketModel { probe, probe_reply, writes: None, reads: None }
    } else {
        let ro = reads_offset(b);
        PacketModel {
            probe,
            probe_reply,
            writes: if b[10] > 0 {
                Some((be_word_at(b, 12), be_words_at(b, 16, b[10] as nat)))
            } else {
                None
            },
            reads: if b[11] > 0 {
                Some((be_word_at(b, ro), be_words_at(b, ro + 4, b[11] as nat)))
            } else {
                None
            },
        }
    }
}

/// A packet with the given flags and no records.
pub open spec fn plain(probe: bool, probe_reply: bool) -> PacketModel {
    PacketModel { probe, probe_reply, writes: None, reads: None }
}

proof fn lemma_be_round_trip(v: u32)
    ensures
        be_word(be_bytes(v)[0], be_bytes(v)[1], be_bytes(v)[2], be_bytes(v)[3]) == v,
{
    assert(((((v >> 24u32) as u8) as u32) << 24u32) | ((((v >> 16u32) as u8) as u32) << 16u32)
        | ((((v >> 8u32) as u8) as u32) << 8u32) | ((v as u8) as u32) == v) by (bit_vector);
}

proof fn lemma_flags(probe: bool, probe_reply: bool)
    ensures
        (flags_byte(probe, probe_reply) & 1u8 != 0) == probe,
        (flags_byte(probe, probe_reply) & 2u8 != 0) == probe_reply,
{
    let x: u8 = if probe_reply {
        2u8
    } else {
        0u8
    };
    let y: u8 = if probe {
        1u8
    } else {
        0u8
    };
    assert(flags_byte(probe, probe_reply) == (1u8 << 4u8) | x | y);
    assert((((1u8 << 4u8) | x | y) & 1u8 != 0) == (y == 1u8) && (((1u8 << 4u8) | x | y) & 2u8
        != 0) == (x == 2u8)) by (bit_vector)
        requires
            x == 0u8 || x == 2u8,
            y == 0u8 || y == 1u8,
    ;
}

/// Words laid out by `words_bytes` at `start` of `b` read back as themselves.
proof fn lemma_words_round_trip(b: Seq<u8>, start: int, d: Seq<u32>)
    requires
        0 <= start,
        start + 4 * d.len() <= b.len(),
        b.subrange(start, start + 4 * d.len()) == words_bytes(d),
    ensures
        be_words_at(b, start, d.len()) == d,
{
    assert forall|k: int| 0 <= k < d.len() implies be_words_at(b, start, d.len())[k] == d[k] by {
        lemma_be_round_trip(d[k]);
        assert forall|j: int| 0 <= j < 4 implies b[start + 4 * k + j] == be_bytes(d[k])[j] by {
            assert(b[start + 4 * k + j] == b.subrange(start, start + 4 * d.len())[4 * k + j]);
            assert((4 * k + j) / 4 == k && (4 * k + j) % 4 == j);
        }
    }
    assert(be_words_at(b, start, d.len()) =~= d);
}

/// Every packet whose sections fit their count bytes and are not empty where
/// present decodes from its encoding to itself.
pub proof fn lemma_decode_encode(p: PacketModel)
    requires
        p.fits_wire(),
        p.writes matches Some((_, d)) ==> d.len() > 0,
        p.reads matches Some((_, d)) ==> d.len() > 0,
    ensures
        decodes(encode_spec(p)),
        decode_spec(encode_spec(p)) == p,
{
    let b = encode_spec(p);
    lemma_flags(p.probe, p.probe_reply);
    if !p.is_bare_probe() {
        let wc = section_count(p.writes);
        let rc = section_count(p.reads);
        let w = section_bytes(p.writes);
        let r = section_bytes(p.reads);
        assert(b[10] == wc && b[11] == rc);
        let ro: int = if wc > 0 { 16 + 4 * (wc as int) } else { 12 };
        assert(w.len() == if wc > 0 { 4 + 4 * wc } else { 0 });
        assert(b.len() == 12 + w.len() + r.len());
        assert(reads_offset(b) == ro);
        if let Some((a, d)) = p.writes {
            lemma_be_round_trip(a);
            assert(b.subrange(16, 16 + 4 * (d.len() as int)) =~= words_bytes(d));
            lemma_words_round_trip(b, 16, d);
            assert(b[12] == be_bytes(a)[0] && b[13] == be_bytes(a)[1] && b[14] == be_bytes(a)[2]
                && b[15] == be_bytes(a)[3]);
        }
        if let Some((a, d)) = p.reads {
            lemma_be_round_trip(a);
            assert(b.subrange(ro + 4, ro + 4 + 4 * d.len()) =~= words_bytes(d));
            lemma_words_round_trip(b, ro + 4, d);
            assert(b[ro] == be_bytes(a)[0] && b[ro + 1] == be_bytes(a)[1] && b[ro + 2] == be_bytes(
                a,
            )[2] && b[ro + 3] == be_bytes(a)[3]);
        }
    }
}

/// A buffer whose first two bytes are not the magic number never decodes,
/// whatever follows them.
pub proof fn lemma_wrong_magic_rejected(b: Seq<u8>)
    requires
        b.len() < 2 || b[0] != 0x4e || b[1] != 0x6f,
    ensures
        !decodes(b),
{
}

fn push_be(buf: &mut Vec<u8>, v: u32)
    ensures
        final(buf)@ == old(buf)@ + be_bytes(v),
{
    buf.push((v >> 24u32) as u8);
    buf.push((v >> 16u32) as u8);
    buf.push((v >> 8u32) as u8);
    buf.push(v as u8);
    assert(final(buf)@ =~= old(buf)@ + be_bytes(v));
}

fn push_section(buf: &mut Vec<u8>, base: u32, d: &Vec<u32>)
    ensures
        final(buf)@ == old(buf)@ + section_bytes(Some((base, d@))),
{
    push_be(buf, base);
    let ghost start = buf@;
    let mut i: usize = 0;
    while i < d.len()
        invariant
            i <= d@.len(),
            buf@ == start + words_bytes(d@.subrange(0, i as int)),
        decreases d@.len() - i,
    {
        push_be(buf, d[i]);
        assert(words_bytes(d@.subrange(0, i + 1)) =~= words_bytes(d@.subrange(0, i as int))
            + be_bytes(d@[i as int]));
        i += 1;
    }
    assert(d@.subrange(0, d@.len() as int) =~= d@);
    assert(buf@ =~= old(buf)@ + section_bytes(Some((base, d@))));
}

fn read_be(data: &[u8], at: usize) -> (r: u32)
    requires
        at + 4 <= data@.len(),
    ensures
        r == be_word_at(data@, at as int),
{
    ((data[at] as u32) << 24u32) | ((data[at + 1] as u32) << 16u32) | ((data[at + 2] as u32)
        << 8u32) | (data[at + 3] as u32)
}

fn read_words(data: &[u8], start: usize, n: usize) -> (r: Vec<u32>)
    requires
        start + 4 * n <= data@.len(),
    ensures
        r@ == be_words_at(data@, start as int, n as nat),
{
    let mut values: Vec<u32> = Vec::new();
    let len = data.len();
    let mut k: usize = 0;
    while k < n
        invariant
            k <= n,
            len == data@.len(),
            start + 4 * n <= data@.len(),
            values@ == be_words_at(data@, start as int, k as nat),
        decreases n - k,
    {
        let v = read_be(data, start + 4 * k);
        values.push(v);
        k += 1;
        assert(values@ =~= be_words_at(data@, start as int, k as nat));
    }
    values
}

impl Packet {
    /// An empty packet: no flags, no records.
    pub fn new() -> (r: Packet)
        ensures
            r@ == plain(false, false),
    {
        Packet { probe: false, probe_reply: false, writes: None, reads: None }
    }

    /// A probe request.
    pub fn probe_request() -> (r: Packet)
        ensures
            r@ == plain(true, false),
    {
        Packet { probe: true, probe_reply: false, writes: None, reads: None }
    }

    /// A reply to a probe.
    pub fn probe_reply() -> (r: Packet)
        ensures
            r@ == plain(false, true),
    {
        Packet { probe: false, probe_reply: true, writes: None, reads: None }
    }

    /// A write of one value.
    pub fn write(addr: u32, data: u32) -> (r: Packet)
        ensures
            r@ == (PacketModel { writes: Some((addr, seq![data])), ..plain(false, false) }),
    {
        let mut d: Vec<u32> = Vec::new();
        d.push(data);
        assert(d@ =~= seq![data]);
        Packet { probe: false, probe_reply: false, writes: Some((addr, d)), reads: None }
    }

    /// A write of consecutive values from `base_addr` on.
    pub fn write_burst(base_addr: u32, data: Vec<u32>) -> (r: Packet)
        ensures
            r@ == (PacketModel { writes: Some((base_addr, data@)), ..plain(false, false) }),
    {
        Packet { probe: false, probe_reply: false, writes: Some((base_addr, data)), reads: None }
    }

    /// A read of one address.
    pub fn read(addr: u32) -> (r: Packet)
        ensures
            r@ == (PacketModel { reads: Some((0, seq![addr])), ..plain(false, false) }),
    {
        let mut a: Vec<u32> = Vec::new();
        a.push(addr);
        assert(a@ =~= seq![addr]);
        Packet { probe: false, probe_reply: false, writes: None, reads: Some((0, a)) }
    }

    /// A read of several addresses.
    pub fn read_burst(addrs: Vec<u32>) -> (r: Packet)
        ensures
            r@ == (PacketModel { reads: Some((0, addrs@)), ..plain(false, false) }),
    {
        Packet { probe: false, probe_reply: false, writes: None, reads: Some((0, addrs)) }
    }

    /// The answer to a read: the values travel as a write record at the
    /// base return address.
    pub fn read_response(base_ret_addr: u32, data: Vec<u32>) -> (r: Packet)
        ensures
            r@ == (PacketModel { writes: Some((base_ret_addr, data@)), ..plain(false, false) }),
    {
        Packet {
            probe: false,
            probe_reply: false,
            writes: Some((base_ret_addr, data)),
            reads: None,
        }
    }

    /// The bytes of this packet: the header, then, unless it is a bare probe
    /// or probe reply, the record header and the sections that are present.
    pub fn encode(&self) -> (r: Vec<u8>)
        requires
            self@.fits_wire(),
        ensures
            r@ == encode_spec(self@),
    {
        let mut buf: Vec<u8> = Vec::new();
        buf.push((MAGIC >> 8u16) as u8);
        buf.push(MAGIC as u8);
        let flags: u8 = (VERSION << 4u8) | (if self.probe_reply {
            2u8
        } else {
            0u8
        }) | (if self.probe {
            1u8
        } else {
            0u8
        });
        buf.push(flags);
        buf.push(0x44);
        buf.push(0);
        buf.push(0);
        buf.push(0);
        buf.push(0);
        assert(buf@ =~= header_bytes(self.probe, self.probe_reply)) by {
            assert((MAGIC >> 8u16) as u8 == 0x4e && MAGIC as u8 == 0x6f) by (bit_vector);
        }
        if (self.probe || self.probe_reply) && self.writes.is_none() && self.reads.is_none() {
            return buf;
        }
        let wcount: u8 = match &self.writes {
            Some((_, d)) => d.len() as u8,
            None => 0,
        };
        let rcount: u8 = match &self.reads {
            Some((_, a)) => a.len() as u8,
            None => 0,
        };
        buf.push(0x00);
        buf.push(0x0f);
        buf.push(wcount);
        buf.push(rcount);
        let ghost with_record = buf@;
        match &self.writes {
            Some((base, d)) => push_section(&mut buf, *base, d),
            None => {},
        }
        let ghost with_writes = buf@;
        assert(with_writes == with_record + section_bytes(self@.writes));
        match &self.reads {
            Some((base, a)) => push_section(&mut buf, *base, a),
            None => {},
        }
        assert(buf@ =~= encode_spec(self@));
        buf
    }

    /// The packet held by `data`, or `None` where `data` is shorter than a
    /// header, has the wrong magic, or declares sections that run past its end.
    pub fn decode(data: &[u8]) -> (r: Option<Packet>)
        ensures
            r is Some <==> decodes(data@),
            r matches Some(p) ==> p@ == decode_spec(data@),
    {
        let len = data.len();
        if len < PACKET_HEADER_LEN {
            return None;
        }
        if data[0] != 0x4e || data[1] != 0x6f {
            return None;
        }
        let flags = data[2];
        let probe_reply = (flags & 2u8) != 0;
        let probe = (flags & 1u8) != 0;
        if len == PACKET_HEADER_LEN {
            return Some(Packet { probe, probe_reply, writes: None, reads: None });
        }
        if len < PACKET_HEADER_LEN + RECORD_HEADER_LEN {
            return None;
        }
        let wcount = data[10] as usize;
        let rcount = data[11] as usize;
        let mut offset: usize = PACKET_HEADER_LEN + RECORD_HEADER_LEN;
        let writes = if wcount > 0 {
            if len < offset + 4 + wcount * 4 {
                return None;
            }
            let base = read_be(data, offset);
            let values = read_words(data, offset + 4, wcount);
            offset = offset + 4 + wcount * 4;
            Some((base, values))
        } else {
            None
        };
        assert(offset == reads_offset(data@));
        let reads = if rcount > 0 {
            if len < offset + 4 + rcount * 4 {
                return None;
            }
            let base = read_be(data, offset);
            let addrs = read_words(data, offset + 4, rcount);
            Some((base, addrs))
        } else {
            None
        };
        let p = Packet { probe, probe_reply, writes, reads };
        assert(p@ == decode_spec(data@));
        Some(p)
    }

    /// The values carried by a read response: the write record's words.
    pub fn get_read_data(&self) -> (r: Option<&[u32]>)
        ensures
            r matches Some(d) ==> self@.writes matches Some((_, w)) && d@ == w,
            r is None <==> self.writes is None,
    {
        match &self.writes {
            Some((_, d)) => Some(d.as_slice()),
            None => None,
        }
    }
}

impl Default for Packet {
    fn default() -> (r: Packet)
        ensures
            r@ == plain(false, false),
    {
        Packet::new()
    }
}

} // verus!
