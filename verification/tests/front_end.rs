use jelly::datatypes::diagnostic_log::DiagnosticLog;
use jelly::datatypes::log::Log;
use jelly::datatypes::log::LogEntry;
use jelly::network::get_addr_as_string;
use jelly::app::handler::Key;
use jelly::app::handler::Outgoing;
use jelly::command::commands::ifconfig::Ipv6AddrCidr;
use jelly::command::commands::ip::decode_netif_list_into_string;
use jelly::datatypes::coap_log::decode_message;
use jelly::datatypes::coap_log::CoapMessage;
use jelly::datatypes::coap_log::CodeClass;
use jelly::datatypes::coap_log::ContentFormatInfo;
use jelly::datatypes::packet_log::PacketLog;
use jelly::tui::fmt_packet;
use jelly::tui::fmt_ps;
use jelly::tui::poll_request;
use jelly::tui::App;
use jelly::tui::PollItem;
use jelly::tui::Refresh;

fn message(class: CodeClass, code_name: &str, token: Vec<u8>, cf: Option<(u16, &str)>, payload: &[u8]) -> CoapMessage {
    CoapMessage {
        code: 69,
        class,
        code_name: code_name.to_string(),
        status_is_error: false,
        token,
        uri_path: None,
        content_format: cf.map(|(number, name)| ContentFormatInfo { number, name: name.to_string() }),
        payload: payload.to_vec(),
    }
}

fn type_line(app: &mut App, line: &str) {
    for c in line.chars() {
        assert_eq!(app.on_key(Key::Char(c)), Refresh::Update);
    }
}

#[test]
fn enter_then_up_recalls_the_line_sent() {
    let mut app = App::new();
    type_line(&mut app, "version");
    assert_eq!(app.on_key(Key::Enter), Refresh::Update);
    assert_eq!(app.user_command(), "");
    assert_eq!(app.on_key(Key::Up), Refresh::Update);
    assert_eq!(app.user_command(), "version\n");
    assert_eq!(app.on_key(Key::Down), Refresh::Update);
    assert_eq!(app.user_command(), "");
    match &app.take_outbox()[0] {
        Outgoing::Diagnostic(s) => assert_eq!(s, "version\n"),
        _ => panic!("expected a diagnostic message"),
    }
}

#[test]
fn lone_newline_stays_out_of_the_history() {
    let mut app = App::new();
    app.on_key(Key::Enter);
    app.on_key(Key::Up);
    assert_eq!(app.user_command(), "");
}

#[test]
fn raw_coap_line_goes_out_with_a_token() {
    let mut app = App::new();
    type_line(&mut app, "/riot/ver");
    app.on_key(Key::Enter);
    match &app.take_outbox()[0] {
        Outgoing::Configuration(r) => {
            assert_eq!(r.plan.path, "/riot/ver");
            assert_eq!(r.token, vec![1, 0]);
            assert!(r.block2);
        }
        _ => panic!("expected a configuration request"),
    }
    assert_eq!(app.configuration_packets().len(), 1);
    let answer = message(CodeClass::Response, "Content", vec![1, 0], None, b"x");
    app.on_configuration_msg(answer);
    assert_eq!(app.configuration_packets().len(), 2);
}

#[test]
fn tab_completes_with_the_first_match() {
    let mut app = App::new();
    type_line(&mut app, "/shell/v");
    app.on_key(Key::Tab);
    assert_eq!(app.user_command(), "/shell/version");
    app.on_key(Key::Backspace);
    assert_eq!(app.user_command(), "/shell/versio");
    assert_eq!(app.on_key(Key::Left), Refresh::Skip);
    assert_eq!(app.on_key(Key::Esc), Refresh::Quit);
    assert_eq!(app.suggest_cmd("zzz"), None);
}

#[test]
fn poll_reads_the_version_in_parentheses() {
    let mut app = App::new();
    assert!(app.take_poll_answer(PollItem::Version, Some(b"RIOT (2024.07-devel) on x")));
    assert!(app.take_poll_answer(PollItem::Board, Some(b"native")));
    assert!(app.take_poll_answer(PollItem::Interfaces, None));
    let (_, ip, version, board) = app.texts();
    assert_eq!(version, "2024.07-devel");
    assert_eq!(board, "native");
    assert_eq!(ip, "Failed to parse ifconfig packet");
    assert!(!app.take_poll_answer(PollItem::Version, None));
    assert_eq!(app.texts().2, "2024.07-devel");
    assert_eq!(poll_request(PollItem::Board).plan.path, "/riot/board");
}

#[test]
fn packet_view_of_requests_and_responses() {
    let mut req = message(CodeClass::Request, "Get", vec![0x34, 0x12], None, b"");
    req.uri_path = Some(vec![b"riot".to_vec(), b"board".to_vec()]);
    assert_eq!(fmt_packet(&req).unwrap(), " \u{2190} Req(Get /riot/board)[0x1234]");
    let text = message(CodeClass::Response, "Content", vec![1, 0], Some((0, "TextPlain")), b"hi");
    assert_eq!(fmt_packet(&text).unwrap(), " \u{2192} Res(Content/TextPlain)[0x0001] 2 bytes\n  hi");
    let links = message(CodeClass::Response, "Content", vec![1], Some((40, "ApplicationLinkFormat")), b"</a>,</b>");
    assert_eq!(
        fmt_packet(&links).unwrap(),
        " \u{2192} Res(Content/ApplicationLinkFormat)[0xffff] 11 bytes\n  </a>\n  </b>"
    );
    let empty = message(CodeClass::Response, "Content", vec![2, 0], None, b"");
    assert_eq!(fmt_packet(&empty).unwrap(), " \u{2192} Res(Content)[0x0002]\n  Empty Payload");
    let cbor = message(CodeClass::Response, "Content", vec![2, 0], Some((60, "ApplicationCBOR")), b"");
    assert!(fmt_packet(&cbor).is_none());
    assert_eq!(fmt_packet(&message(CodeClass::Empty, "", vec![], None, b"")).unwrap(), "Empty");
}

#[test]
fn thread_view_of_a_ps_answer() {
    let mut payload = b"main\0".to_vec();
    payload.extend_from_slice(&1024u32.to_le_bytes());
    payload.extend_from_slice(&256u32.to_le_bytes());
    payload.extend_from_slice(&0x2000_0000u32.to_le_bytes());
    let m = message(CodeClass::Response, "Content", vec![1, 0], Some((0, "TextPlain")), &payload);
    let expected = format!(
        "{:<20}|{:<5}|{:<5}|{:<5}|{:<10}|{:<10}|\n{:<20}|{:<5}|{:<5}|{:<5}|{:#010x}|{:#010x}|\n",
        "name", "stack", "used", "free", "start", "SP", "main", 1024, 256, 768, 0x2000_0000u32, 0x2000_0334u32
    );
    assert_eq!(fmt_ps(&m).unwrap(), expected);
    payload.truncate(payload.len() - 1);
    let cut = message(CodeClass::Response, "Content", vec![1, 0], Some((0, "TextPlain")), &payload);
    assert!(fmt_ps(&cut).is_none());
    assert_eq!(fmt_ps(&message(CodeClass::Request, "Get", vec![], None, b"")).unwrap(), "Request");
}

#[test]
fn earlier_interface_listing_reads_tagged_entries() {
    // [[20("wpan0"), 302(false), 304(26)]]
    let data = vec![
        0x81, 0x83, 0xd4, 0x65, b'w', b'p', b'a', b'n', b'0', 0xd9, 0x01, 0x2e, 0xf4, 0xd9, 0x01, 0x30, 0x18, 0x1a,
    ];
    assert_eq!(
        decode_netif_list_into_string(&data).unwrap(),
        "Iface wpan0\n  Channel: 26\n\n\n  Link type: wireless\n\n"
    );
    assert!(decode_netif_list_into_string(&[0xa0]).is_none());
    // A hardware address must be eight bytes long.
    assert!(decode_netif_list_into_string(&[0x81, 0x81, 0xd8, 0x30, 0x41, 0x01]).is_none());
}

#[test]
fn address_written_reads_back() {
    let mut addr = vec![0u8; 16];
    addr[0] = 0x20;
    addr[1] = 0x01;
    addr[15] = 0x01;
    let a = Ipv6AddrCidr { addr: addr.clone(), prefix: 48 };
    let mut out = Vec::new();
    a.into_cbor_with_prefix(&mut out);
    // The tag comes first; the address follows it.
    assert_eq!(&out[..2], &[0xd8, 0x36]);
    let (b, end) = Ipv6AddrCidr::from_cbor(&out, 2).unwrap();
    assert_eq!(b.addr, addr);
    assert_eq!(b.prefix, 48);
    assert_eq!(end, out.len());
}

#[test]
fn coap_bytes_read_as_a_message() {
    // ACK, token length 2, 2.05 Content, message id 1, token 01 00,
    // Content-Format 0 (text/plain), payload "hi".
    let data = [0x62, 0x45, 0x00, 0x01, 0x01, 0x00, 0xc0, 0xff, b'h', b'i'];
    let m = decode_message(&data).unwrap();
    assert_eq!(m.code, 0x45);
    assert_eq!(m.class, CodeClass::Response);
    assert_eq!(m.code_name, "Content");
    assert!(!m.status_is_error);
    assert_eq!(m.token, vec![1, 0]);
    assert!(m.uri_path.is_none());
    let cf = m.content_format.unwrap();
    assert_eq!(cf.number, 0);
    assert_eq!(cf.name, "TextPlain");
    assert_eq!(m.payload, b"hi".to_vec());
    // 4.04 Not Found is an error.
    let nf = decode_message(&[0x60, 0x84, 0x00, 0x02]).unwrap();
    assert_eq!(nf.code_name, "NotFound");
    assert!(nf.status_is_error);
    assert!(decode_message(&[0x01]).is_none());
}

#[test]
fn packet_log_summarises_ipv6_pings() {
    let mut p = vec![0u8; 48];
    p[0] = 0x60;
    p[4] = 0;
    p[5] = 8; // payload length
    p[6] = 58; // ICMPv6
    p[7] = 64; // hop limit
    p[8] = 0xfe;
    p[9] = 0x80;
    p[23] = 1; // source fe80::1
    p[24] = 0xfe;
    p[25] = 0x80;
    p[39] = 2; // destination fe80::2
    p[40] = 128; // echo request
    let to_node = PacketLog::packet_to_node(&p).unwrap();
    assert_eq!(to_node.get_title(), "Host [fe80::1] -> Node [fe80::2] 48 bytes");
    assert_eq!(to_node.get_payload().unwrap(), "Icmpv6 EchoRequest TTL  64; 8 bytes");
    let to_host = PacketLog::packet_to_host(&p).unwrap();
    assert_eq!(to_host.get_title(), "Host [fe80::2] <- Node [fe80::1] 48 bytes");
    let mut log = PacketLog::new();
    log.add_to_host(&p);
    log.add_to_node(&[0x10, 0, 0]);
    assert_eq!(log.log().len(), 1);
    assert!(PacketLog::packet_to_host(&[0x60, 0]).is_err());
}

fn v6(segments: [u16; 8]) -> Vec<u8> {
    segments.iter().flat_map(|s| s.to_be_bytes()).collect()
}

#[test]
fn interface_is_named_by_its_first_usable_address() {
    let multicast = v6([0xff02, 0, 0, 0, 0, 0, 0, 1]);
    let loopback = v6([0, 0, 0, 0, 0, 0, 0, 1]);
    let unspecified = v6([0; 8]);
    let global = v6([0x2001, 0xdb8, 0, 0, 0, 0, 0, 1]);
    assert_eq!(get_addr_as_string(None), None);
    assert_eq!(get_addr_as_string(Some(vec![])), None);
    assert_eq!(
        get_addr_as_string(Some(vec![multicast.clone(), loopback.clone(), global.clone()])),
        Some("2001:db8::1".to_string())
    );
    assert_eq!(
        get_addr_as_string(Some(vec![unspecified.clone(), vec![192, 168, 1, 2], global])),
        Some("192.168.1.2".to_string())
    );
    assert_eq!(get_addr_as_string(Some(vec![multicast, loopback, unspecified])), None);
}

#[test]
fn time_stamps_show_the_utc_time_of_day() {
    let stamp = LogEntry::new(1u8).get_timestamp();
    let b = stamp.as_bytes();
    assert_eq!(b.len(), 14);
    assert_eq!((b[0], b[3], b[6], b[9], b[13]), (b'[', b':', b':', b'.', b']'));
    for i in [1, 2, 4, 5, 7, 8, 10, 11, 12] {
        assert!(b[i].is_ascii_digit());
    }
    assert!(&stamp[1..3] < "24" && &stamp[4..6] < "60" && &stamp[7..9] < "60");
}

#[test]
fn diagnostic_lines_join_parts_and_end_at_newlines() {
    let mut d = DiagnosticLog::new();
    for m in ["foo", "bar", "baz\n", "hello wo", "rld!\n"] {
        d.add(m);
    }
    let lines: Vec<&str> = d.diagnostics().iter().map(|x| x.message.as_str()).collect();
    assert_eq!(lines, vec!["foobarbaz", "hello world!"]);
    let mut e = DiagnosticLog::new();
    e.add("ab\n\ncd");
    let lines: Vec<&str> = e.diagnostics().iter().map(|x| x.message.as_str()).collect();
    assert_eq!(lines, vec!["ab", "", "cd"]);
    let mut f = DiagnosticLog::new();
    f.add("a\tb\r\n");
    f.add("\n");
    let lines: Vec<&str> = f.diagnostics().iter().map(|x| x.message.as_str()).collect();
    assert_eq!(lines, vec!["ab", ""]);
}

#[test]
fn text_log_parts_give_what_the_whole_gives() {
    let mut parts: Log<String> = Log::new();
    parts.append_message("x\n");
    parts.append_message("\ny");
    let mut whole: Log<String> = Log::new();
    whole.append_message("x\n\ny");
    let a: Vec<&str> = parts.entries().iter().map(|e| e.data.as_str()).collect();
    let b: Vec<&str> = whole.entries().iter().map(|e| e.data.as_str()).collect();
    assert_eq!(a, b);
    assert_eq!(a, vec!["x", "", "y"]);
    let mut l: Log<String> = Log::new();
    for m in ["foo", "bar", "baz\n", "hello wo", "rld!\n"] {
        l.append_message(m);
    }
    let c: Vec<&str> = l.entries().iter().map(|e| e.data.as_str()).collect();
    assert_eq!(c, vec!["foobarbaz", "hello world!"]);
}
