use ft601::etherbone::Packet;
use ft601::EtherbonePacket;

#[test]
fn test_encode_decode_write() {
    let packet = Packet::write(0x12345678, 0xdeadbeef);
    let encoded = packet.encode();
    let decoded = Packet::decode(&encoded).unwrap();

    let (addr, data) = decoded.writes.unwrap();
    assert_eq!(addr, 0x12345678);
    assert_eq!(data, vec![0xdeadbeef]);
}

#[test]
fn test_encode_decode_read() {
    let packet = Packet::read(0x12345678);
    let encoded = packet.encode();
    let decoded = Packet::decode(&encoded).unwrap();

    let (_, addrs) = decoded.reads.unwrap();
    assert_eq!(addrs, vec![0x12345678]);
}

#[test]
fn test_probe() {
    let packet = Packet::probe_request();
    let encoded = packet.encode();
    let decoded = Packet::decode(&encoded).unwrap();
    assert!(decoded.probe);
}

#[test]
fn probe_request_bytes_exact() {
    let encoded = Packet::probe_request().encode();
    assert_eq!(encoded, vec![0x4e, 0x6f, 0x11, 0x44, 0x00, 0x00, 0x00, 0x00]);
}

#[test]
fn probe_reply_bytes_exact() {
    let encoded = Packet::probe_reply().encode();
    assert_eq!(encoded, vec![0x4e, 0x6f, 0x12, 0x44, 0x00, 0x00, 0x00, 0x00]);
    let decoded = Packet::decode(&encoded).unwrap();
    assert!(decoded.probe_reply);
    assert!(!decoded.probe);
    assert!(decoded.writes.is_none() && decoded.reads.is_none());
}

#[test]
fn write_bytes_exact() {
    let encoded = Packet::write(0x12345678, 0xdeadbeef).encode();
    assert_eq!(
        encoded,
        vec![
            0x4e, 0x6f, 0x10, 0x44, 0x00, 0x00, 0x00, 0x00, 0x00, 0x0f, 0x01, 0x00, 0x12, 0x34,
            0x56, 0x78, 0xde, 0xad, 0xbe, 0xef
        ]
    );
    let decoded = Packet::decode(&encoded).unwrap();
    assert_eq!(decoded.writes, Some((0x12345678, vec![0xdeadbeef])));
    assert!(decoded.reads.is_none());
}

#[test]
fn empty_packet_has_record_header() {
    let encoded = Packet::new().encode();
    assert_eq!(
        encoded,
        vec![0x4e, 0x6f, 0x10, 0x44, 0, 0, 0, 0, 0x00, 0x0f, 0x00, 0x00]
    );
    let decoded = Packet::decode(&encoded).unwrap();
    assert!(!decoded.probe && !decoded.probe_reply);
    assert!(decoded.writes.is_none() && decoded.reads.is_none());
    let d = EtherbonePacket::default();
    assert_eq!(d.encode(), encoded);
}

#[test]
fn read_burst_round_trip() {
    let addrs = vec![0x1000, 0x2000, 0xffff_fffc];
    let encoded = Packet::read_burst(addrs.clone()).encode();
    assert_eq!(encoded.len(), 12 + 4 + 12);
    assert_eq!(encoded[10], 0);
    assert_eq!(encoded[11], 3);
    let decoded = Packet::decode(&encoded).unwrap();
    assert_eq!(decoded.reads, Some((0, addrs)));
    assert!(decoded.writes.is_none());
}

#[test]
fn write_burst_and_read_response_round_trip() {
    let values = vec![1, 2, 3, 0xdeadbeef];
    let decoded = Packet::decode(&Packet::write_burst(0x40, values.clone()).encode()).unwrap();
    assert_eq!(decoded.writes, Some((0x40, values.clone())));
    let decoded = Packet::decode(&Packet::read_response(0x80, values.clone()).encode()).unwrap();
    assert_eq!(decoded.writes, Some((0x80, values.clone())));
    assert_eq!(decoded.get_read_data(), Some(&values[..]));
}

#[test]
fn largest_section_round_trip() {
    let values: Vec<u32> = (0..255u32).map(|i| i.wrapping_mul(0x01010101)).collect();
    let encoded = Packet::write_burst(0, values.clone()).encode();
    assert_eq!(encoded[10], 255);
    let decoded = Packet::decode(&encoded).unwrap();
    assert_eq!(decoded.writes, Some((0, values)));
}

#[test]
fn decode_accepts_writes_and_reads_together() {
    let mut bytes = vec![0x4e, 0x6f, 0x10, 0x44, 0, 0, 0, 0, 0x00, 0x0f, 0x01, 0x02];
    bytes.extend_from_slice(&[0, 0, 0, 0x10, 0xaa, 0xbb, 0xcc, 0xdd]);
    bytes.extend_from_slice(&[0, 0, 0, 0x20, 0, 0, 0, 1, 0, 0, 0, 2]);
    let decoded = Packet::decode(&bytes).unwrap();
    assert_eq!(decoded.writes, Some((0x10, vec![0xaabbccdd])));
    assert_eq!(decoded.reads, Some((0x20, vec![1, 2])));
}

#[test]
fn decode_rejects_wrong_magic() {
    let mut bytes = Packet::write(1, 2).encode();
    bytes[0] = 0x4f;
    assert!(Packet::decode(&bytes).is_none());
    let mut bytes = Packet::probe_request().encode();
    bytes[1] = 0x00;
    assert!(Packet::decode(&bytes).is_none());
}

#[test]
fn decode_rejects_short_input() {
    assert!(Packet::decode(&[]).is_none());
    assert!(Packet::decode(&[0x4e, 0x6f, 0x11, 0x44, 0, 0, 0]).is_none());
    assert!(Packet::decode(&[0x4e, 0x6f, 0x10, 0x44, 0, 0, 0, 0, 0, 0x0f, 1]).is_none());
}

#[test]
fn decode_rejects_counts_past_end() {
    let mut bytes = Packet::write(1, 2).encode();
    bytes.pop();
    assert!(Packet::decode(&bytes).is_none());
    let mut bytes = Packet::read_burst(vec![1, 2]).encode();
    bytes.truncate(bytes.len() - 4);
    assert!(Packet::decode(&bytes).is_none());
}

#[test]
fn decode_reads_flag_bits() {
    let decoded = Packet::decode(&[0x4e, 0x6f, 0x13, 0x44, 0, 0, 0, 0]).unwrap();
    assert!(decoded.probe && decoded.probe_reply);
}
