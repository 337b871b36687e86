use dcutr_chat::chat::{ChatCodec, ChatProtocol, ChatRequest, ChatResponse, ReadOutcome, ReadStep};

fn chunks(parts: &[&[u8]]) -> Vec<ReadOutcome> {
    let mut v: Vec<ReadOutcome> = parts.iter().map(|p| ReadOutcome::Data(p.to_vec())).collect();
    v.push(ReadOutcome::Data(Vec::new()));
    v
}

#[test]
fn protocol_tag() {
    assert_eq!(ChatProtocol().as_ref(), "/chat/1.0.0");
}

#[test]
fn written_bytes_are_the_payload() {
    let codec = ChatCodec();
    let req = ChatRequest(vec![0xff, 0x00, b'h', b'i']);
    assert_eq!(codec.write_request(&req), vec![0xff, 0x00, b'h', b'i']);
    let resp = ChatResponse(ChatRequest(b"pong".to_vec()));
    assert_eq!(codec.write_response(&resp), b"pong".to_vec());
}

#[test]
fn round_trip_in_chunks() {
    let codec = ChatCodec();
    let msg: Vec<u8> = (0u16..3000).map(|i| (i % 251) as u8).collect();
    let bytes = codec.write_request(&ChatRequest(msg.clone()));
    let parts: Vec<&[u8]> = bytes.chunks(1024).collect();
    let got = codec.read_request(&chunks(&parts)).unwrap();
    assert_eq!(got, ChatRequest(msg));
}

#[test]
fn round_trip_non_utf8_single_bytes() {
    let codec = ChatCodec();
    let msg = vec![0xc3u8, 0x28, 0xa0, 0xa1];
    let bytes = codec.write_request(&ChatRequest(msg.clone()));
    let parts: Vec<&[u8]> = bytes.chunks(1).collect();
    assert_eq!(codec.read_request(&chunks(&parts)), Some(ChatRequest(msg)));
}

#[test]
fn empty_message_round_trip() {
    let codec = ChatCodec();
    let bytes = codec.write_request(&ChatRequest(Vec::new()));
    assert!(bytes.is_empty());
    assert_eq!(codec.read_request(&chunks(&[])), Some(ChatRequest(Vec::new())));
}

#[test]
fn would_block_ends_the_message() {
    let codec = ChatCodec();
    let reads = vec![
        ReadOutcome::Data(b"ab".to_vec()),
        ReadOutcome::WouldBlock,
        ReadOutcome::Data(b"cd".to_vec()),
    ];
    assert_eq!(codec.read_request(&reads), Some(ChatRequest(b"ab".to_vec())));
}

#[test]
fn failed_read_gives_no_message() {
    let codec = ChatCodec();
    let reads = vec![ReadOutcome::Data(b"ab".to_vec()), ReadOutcome::Failed];
    assert_eq!(codec.read_request(&reads), None);
    assert_eq!(codec.read_response(&reads), None);
}

#[test]
fn unended_reads_give_no_message() {
    let codec = ChatCodec();
    assert_eq!(codec.read_request(&vec![ReadOutcome::Data(b"ab".to_vec())]), None);
}

#[test]
fn response_uses_request_framing() {
    let codec = ChatCodec();
    let got = codec.read_response(&chunks(&[b"he", b"llo"])).unwrap();
    assert_eq!(got, ChatResponse(ChatRequest(b"hello".to_vec())));
}

#[test]
fn read_step_accumulates() {
    let codec = ChatCodec();
    let mut buf = b"x".to_vec();
    assert_eq!(codec.read_step(&mut buf, &ReadOutcome::Data(b"yz".to_vec())), ReadStep::More);
    assert_eq!(buf, b"xyz".to_vec());
    assert_eq!(codec.read_step(&mut buf, &ReadOutcome::Data(Vec::new())), ReadStep::Done);
    assert_eq!(codec.read_step(&mut buf, &ReadOutcome::WouldBlock), ReadStep::Done);
    assert_eq!(codec.read_step(&mut buf, &ReadOutcome::Failed), ReadStep::Fail);
    assert_eq!(buf, b"xyz".to_vec());
}
