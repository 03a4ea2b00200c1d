use ft601::bridge::{
    probe_outcome, probe_request, read_burst_reply, read_burst_request, read_reply,
    read_request, write_burst_request, write_request,
};
use ft601::etherbone::Packet;
use ft601::Error;

#[test]
fn requests_match_packets() {
    assert_eq!(read_request(0x10), Packet::read(0x10).encode());
    assert_eq!(write_request(0x10, 5), Packet::write(0x10, 5).encode());
    assert_eq!(probe_request(), vec![0x4e, 0x6f, 0x11, 0x44, 0, 0, 0, 0]);
    let r = read_burst_request(&[1, 2, 3]).unwrap();
    assert_eq!(r, Packet::read_burst(vec![1, 2, 3]).encode());
    let w = write_burst_request(0x100, &[7, 8]).unwrap();
    assert_eq!(w, Packet::write_burst(0x100, vec![7, 8]).encode());
}

#[test]
fn burst_requests_refuse_oversized_records() {
    let many = vec![0u32; 256];
    assert!(matches!(read_burst_request(&many), Err(Error::Protocol(_))));
    assert!(matches!(write_burst_request(0, &many), Err(Error::Protocol(_))));
    assert!(read_burst_request(&many[..255]).is_ok());
}

#[test]
fn read_reply_takes_first_value() {
    let resp = Packet::read_response(0, vec![0xcafe, 0xbeef]).encode();
    assert_eq!(read_reply(&resp).unwrap(), 0xcafe);
}

#[test]
fn read_reply_errors() {
    assert!(matches!(read_reply(&[1, 2, 3]), Err(Error::Protocol(_))));
    let probe_only = Packet::probe_reply().encode();
    assert!(matches!(read_reply(&probe_only), Err(Error::Protocol(_))));
}

#[test]
fn read_burst_echo_keeps_order() {
    let addrs = vec![0x10, 0x14, 0x18, 0x1c];
    let values = vec![4, 3, 2, 1];
    let request = read_burst_request(&addrs).unwrap();
    let asked = Packet::decode(&request).unwrap().reads.unwrap().1;
    assert_eq!(asked, addrs);
    let resp = Packet::read_response(0, values.clone()).encode();
    let got = read_burst_reply(&resp, addrs.len()).unwrap();
    assert_eq!(got.len(), addrs.len());
    assert_eq!(got, values);
    assert!(matches!(read_burst_reply(&[0x4e], 4), Err(Error::Protocol(_))));
}

#[test]
fn read_burst_reply_refuses_other_length() {
    let resp = Packet::read_response(0, vec![7]).encode();
    assert!(matches!(read_burst_reply(&resp, 2), Err(Error::Protocol(_))));
    let resp = Packet::read_response(0, vec![7, 8, 9]).encode();
    assert!(matches!(read_burst_reply(&resp, 2), Err(Error::Protocol(_))));
    let resp = Packet::read_response(0, vec![7, 8]).encode();
    assert_eq!(read_burst_reply(&resp, 2).unwrap(), vec![7, 8]);
}

#[test]
fn probe_outcomes() {
    let reply = Packet::probe_reply().encode();
    assert!(matches!(probe_outcome(Ok(reply)), Ok(true)));
    let other = Packet::probe_request().encode();
    assert!(matches!(probe_outcome(Ok(other)), Ok(false)));
    assert!(matches!(probe_outcome(Ok(vec![0, 1])), Ok(false)));
    assert!(matches!(probe_outcome(Err(Error::Timeout)), Ok(false)));
    assert!(matches!(probe_outcome(Err(Error::Usb("gone".to_string()))), Err(Error::Usb(_))));
}
