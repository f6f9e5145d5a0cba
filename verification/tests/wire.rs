use jelly::app::handler::OutgoingRequest;
use jelly::command::request::Method;
use jelly::command::request::RequestPlan;
use jelly::wire::configuration_frame;
use jelly::wire::diagnostic_frame;
use jelly::wire::frame_event;
use jelly::wire::packet_frame;
use jelly::wire::FrameContent;
use jelly::wire::FrameDecoder;
use jelly::wire::FrameError;

fn request(path: &str, mid: Option<u16>, token: Vec<u8>, block2: bool) -> OutgoingRequest {
    OutgoingRequest {
        plan: RequestPlan { method: Method::Get, path: path.to_string(), query: None, cbor: false, payload: vec![] },
        message_id: mid,
        token,
        block2,
    }
}

#[test]
fn a_diagnostic_frame_is_the_text_between_markers() {
    assert_eq!(diagnostic_frame("Hello World!".to_string()), b"\xc0\x0aHello World!\xc0".to_vec());
}

#[test]
fn an_empty_get_is_framed_with_its_checksum() {
    let frame = configuration_frame(&request("", None, vec![], false)).expect("a small request");
    assert_eq!(frame, vec![0xc0, 0xa9, 0x40, 0x01, 0x00, 0x00, 0xbc, 0x38, 0xc0]);
}

#[test]
fn a_configuration_frame_holds_the_coap_request() {
    let frame = configuration_frame(&request("/jelly/board", Some(0x1234), vec![1, 0], true)).expect("a small request");
    let mut decoder = FrameDecoder::new();
    let frames = decoder.feed(&frame);
    assert_eq!(frames.len(), 1);
    let bytes = match &frames[0] {
        Ok(FrameContent::Configuration(c)) => c.clone(),
        _ => panic!("expected a configuration frame"),
    };
    let packet = coap_lite::Packet::from_bytes(&bytes).expect("a CoAP message");
    assert_eq!(packet.header.message_id, 0x1234);
    assert_eq!(packet.get_token(), &[1, 0]);
    let path: Vec<Vec<u8>> = packet.get_option(coap_lite::CoapOption::UriPath).unwrap().iter().cloned().collect();
    assert_eq!(path, vec![b"jelly".to_vec(), b"board".to_vec()]);
    assert_eq!(
        packet.get_option(coap_lite::CoapOption::Block2).unwrap().front().unwrap(),
        &vec![0x05]
    );
}

#[test]
fn frames_split_over_reads_come_out_once_complete() {
    let mut stream = diagnostic_frame("hi".to_string());
    stream.extend(packet_frame(vec![0x60, 0x01, 0xc0, 0xdb]));
    let mut decoder = FrameDecoder::new();
    let first = decoder.feed(&stream[..3]);
    assert!(first.is_empty());
    let rest = decoder.feed(&stream[3..]);
    assert_eq!(rest.len(), 2);
    match &rest[0] {
        Ok(FrameContent::Diagnostic(s)) => assert_eq!(s, "hi"),
        _ => panic!("expected the diagnostic text"),
    }
    match &rest[1] {
        Ok(FrameContent::Packet(p)) => assert_eq!(p, &vec![0x60, 0x01, 0xc0, 0xdb]),
        _ => panic!("expected the packet"),
    }
}

#[test]
fn a_refused_frame_is_shown_with_its_read() {
    let chunk = [0xc0, 0x01, 0xc0];
    let mut decoder = FrameDecoder::new();
    let frames = decoder.feed(&chunk);
    assert_eq!(frames.len(), 1);
    assert!(matches!(frames[0], Err(FrameError::BadFrameType(1))));
    match frame_event(Err(FrameError::BadFrameType(1)), &chunk) {
        FrameContent::Diagnostic(s) => assert_eq!(s, "Received (Err(BadFrameType(1))): [192, 1, 192]\n"),
        _ => panic!("expected a diagnostic line"),
    }
    match frame_event(Err(FrameError::BadFcs), &[]) {
        FrameContent::Diagnostic(s) => assert_eq!(s, "Received (Err(BadFCS)): []\n"),
        _ => panic!("expected a diagnostic line"),
    }
    match frame_event(Ok(FrameContent::Packet(vec![7])), &chunk) {
        FrameContent::Packet(p) => assert_eq!(p, vec![7]),
        _ => panic!("expected the packet"),
    }
}
