use ft601::etherbone::Packet;
use ft601::gateway::{plan, read_outcome_value, Step, GREETING, READ_FAILED};
use ft601::Error;

fn serve(batch: &mut ft601::gateway::ReadBatch, outcomes: Vec<Result<Vec<u8>, Error>>) -> Vec<Vec<u8>> {
    let mut requests = Vec::new();
    for outcome in outcomes {
        let request = batch.next_request().unwrap();
        requests.push(request);
        batch.record(&outcome);
    }
    assert!(batch.is_complete());
    assert!(batch.next_request().is_none());
    requests
}

#[test]
fn timeout_on_one_address_keeps_the_batch() {
    let request = Packet {
        probe: false,
        probe_reply: false,
        writes: None,
        reads: Some((0x2000, vec![0xa, 0xb, 0xc])),
    }
    .encode();
    let mut batch = match plan(&request) {
        Step::Device { write: None, reads: Some(b) } => b,
        _ => panic!("expected reads for the device"),
    };
    let requests = serve(
        &mut batch,
        vec![
            Ok(Packet::read_response(0, vec![0x111]).encode()),
            Err(Error::Timeout),
            Ok(Packet::read_response(0, vec![0x333]).encode()),
        ],
    );
    assert_eq!(requests[0], Packet::read(0xa).encode());
    assert_eq!(requests[1], Packet::read(0xb).encode());
    assert_eq!(requests[2], Packet::read(0xc).encode());
    let reply = Packet::decode(&batch.reply()).unwrap();
    assert_eq!(reply.writes, Some((0x2000, vec![0x111, 0xffff_ffff, 0x333])));
    assert!(reply.reads.is_none());
}

#[test]
fn undecodable_response_reads_as_failed() {
    assert_eq!(read_outcome_value(&Ok(vec![1, 2, 3])), READ_FAILED);
    assert_eq!(read_outcome_value(&Ok(Packet::probe_reply().encode())), READ_FAILED);
    assert_eq!(read_outcome_value(&Err(Error::Usb("x".to_string()))), READ_FAILED);
    assert_eq!(read_outcome_value(&Ok(Packet::read_response(0, vec![42]).encode())), 42);
}

#[test]
fn probe_is_answered_without_device() {
    let request = Packet::probe_request().encode();
    match plan(&request) {
        Step::Reply(bytes) => {
            assert_eq!(bytes, vec![0x4e, 0x6f, 0x12, 0x44, 0, 0, 0, 0]);
        }
        _ => panic!("expected an immediate reply"),
    }
}

#[test]
fn garbage_is_ignored() {
    assert!(matches!(plan(&[0x00, 0x01, 0x02]), Step::Ignore));
    assert!(matches!(plan(&[0x4e, 0x6e, 0x11, 0x44, 0, 0, 0, 0]), Step::Ignore));
}

#[test]
fn writes_are_forwarded() {
    let request = Packet::write_burst(0x30, vec![5, 6]).encode();
    match plan(&request) {
        Step::Device { write: Some(w), reads: None } => {
            assert_eq!(w, Packet::write_burst(0x30, vec![5, 6]).encode());
        }
        _ => panic!("expected a write for the device"),
    }
}

#[test]
fn greeting_text() {
    assert_eq!(GREETING, "CommFT601:localhost:1234");
}
