use jelly::command::commands::ifconfig_wrapper::IfconfigWrapper;
use jelly::command::commands::ifconfig_wrapper::IfconfigWrapperCli;
use jelly::command::commands::ifconfig_wrapper::SetKey;
use jelly::command::commands::ifconfig_wrapper::SetOperation;
use jelly::command::commands::ifconfig_wrapper::WrapperOperation;
use jelly::command::commands::write::WriteCommand;
use jelly::command::handler::CommandType;
use jelly::datatypes::coap_log::CoapMessage;
use jelly::datatypes::coap_log::CodeClass;
use jelly::command::commands::button_led::ButtonLed;
use jelly::command::commands::button_led::ButtonLedCli;
use jelly::command::request::Method;
use jelly::app::commands::sample_command_display;
use jelly::app::commands::sample_command_handler;
use jelly::app::commands::saul_display;
use jelly::app::commands::saul_handler;
use jelly::app::commands::Saul;
use jelly::app::commands::SaulOperation;
use jelly::app::commands::SampleCommand;
use jelly::command::commands::mem::maybe_hex;
use jelly::command::library::CommandLibrary;
use jelly::command::Command;
use jelly::command::commands::ps::decode_ps;
use jelly::command::commands::ps::ps_table;
use jelly::command::commands::ps::ThreadStatus;
use jelly::command::commands::saul::class_name;
use jelly::command::commands::saul::decode_sensor_list_into_string;

/// A thread table answer: the interrupt stack and one thread.
fn ps_payload() -> Vec<u8> {
    let mut b = vec![0x82, 0x85];
    // interrupt stack: 512 used 100 free 412 base 0x20000000 sp 0x20000100
    b.extend_from_slice(&[0x19, 0x02, 0x00]);
    b.extend_from_slice(&[0x18, 100]);
    b.extend_from_slice(&[0x19, 0x01, 0x9c]);
    b.extend_from_slice(&[0x1a, 0x20, 0x00, 0x00, 0x00]);
    b.extend_from_slice(&[0x1a, 0x20, 0x00, 0x01, 0x00]);
    // one thread
    b.push(0x81);
    b.push(0x8a);
    b.push(0x01); // pid
    b.extend_from_slice(&[0x64, b'm', b'a', b'i', b'n']);
    b.push(0x0b); // running
    b.push(0xf5); // queued
    b.push(0x07); // priority
    b.extend_from_slice(&[0x19, 0x04, 0x00]); // 1024
    b.extend_from_slice(&[0x19, 0x01, 0x00]); // 256
    b.extend_from_slice(&[0x19, 0x03, 0x00]); // 768
    b.extend_from_slice(&[0x1a, 0x20, 0x00, 0x02, 0x00]);
    b.extend_from_slice(&[0x1a, 0x20, 0x00, 0x05, 0x00]);
    b
}

#[test]
fn ps_table_lists_isr_threads_and_sums() {
    let report = decode_ps(&ps_payload()).expect("the answer decodes");
    assert_eq!(report.threads.len(), 1);
    assert_eq!(report.threads[0].name, "main");
    let text = ps_table(&report);
    let mut expected = String::from("\n");
    expected.push_str(&format!(
        "{:^3} | {:^20} | {:^8} {:^1} | {:^3} | {:>6} {:>6} {:>6} | {:^10} | {:^10}\n",
        "pid", "name", "state", "Q", "pri", "stack", "(used)", "(free)", "base addr", "sp"
    ));
    expected.push_str(&format!(
        "{:>3} | {:<20} | {:^8} {:^1} | {:>3} | {:>6} {:>6} {:>6} | {:#010x} | {:#010x}\n",
        "-", "isr_stack", "-", "-", "-", 512, 100, 412, 0x20000000u32, 0x20000100u32
    ));
    expected.push_str(&format!(
        "{:>3} | {:<20} | {:<8} {:^1} | {:>3} | {:>6} {:>6} {:>6} | {:#010x} | {:#010x}\n",
        1, "main", "running", "\u{2714}", 7, 1024, 256, 768, 0x20000200u32, 0x20000500u32
    ));
    expected.push_str(&format!(
        "{:>3} | {:<20} | {:^8} {:^1} | {:>3} | {:>6} {:>6} {:>6}\n",
        " ", "SUM", " ", " ", " ", 1536, 356, 1180
    ));
    assert_eq!(text, expected);
}

#[test]
fn ps_answer_cut_short_does_not_decode() {
    let mut p = ps_payload();
    p.truncate(p.len() - 3);
    assert!(decode_ps(&p).is_none());
}

#[test]
fn thread_status_codes() {
    assert_eq!(ThreadStatus::from_u32(0), ThreadStatus::Stopped);
    assert_eq!(ThreadStatus::from_u32(4).to_text(), "bl rx");
    assert_eq!(ThreadStatus::from_u32(12), ThreadStatus::Pending);
    assert_eq!(ThreadStatus::from_u32(13), ThreadStatus::Numof);
    assert_eq!(ThreadStatus::from_u32(99).to_text(), "numof");
}

#[test]
fn maybe_hex_reads_hex_and_decimal() {
    assert_eq!(maybe_hex("0x10"), Ok(16));
    assert_eq!(maybe_hex("0X1f"), Ok(31));
    assert_eq!(maybe_hex("42"), Ok(42));
    assert!(maybe_hex("0xzz").is_err());
    assert!(maybe_hex("abc").is_err());
}

#[test]
fn saul_class_names() {
    assert_eq!(class_name(0x00), Some("UNDEFINED"));
    assert_eq!(class_name(0x41), Some("SAUL_ACT_ID_LED_RGB"));
    assert_eq!(class_name(0x82), Some("SAUL_SENSE_ID_TEMP"));
    assert_eq!(class_name(0x47), None);
    assert_eq!(class_name(0xc0), None);
}

#[test]
fn saul_sensor_list_lines() {
    // [[0, 0x82, "temp"], [1, 0x41, "led"]]
    let payload = vec![
        0x82, 0x83, 0x00, 0x18, 0x82, 0x64, b't', b'e', b'm', b'p', 0x83, 0x01, 0x18, 0x41, 0x63, b'l', b'e',
        b'd',
    ];
    assert_eq!(
        decode_sensor_list_into_string(&payload),
        "0, SAUL_SENSE_ID_TEMP, temp\n1, SAUL_ACT_ID_LED_RGB, led\n"
    );
}

#[test]
fn saul_display_of_a_list_and_of_a_missing_device() {
    // [0, [[2, 0x80, "x"]]]
    let list = vec![0x82, 0x00, 0x81, 0x83, 0x02, 0x18, 0x80, 0x61, b'x'];
    assert_eq!(saul_display(list), "2, SAUL_SENSE_ID_ANY, x\n");
    // [1, 7]: a read answer without a map
    assert_eq!(saul_display(vec![0x82, 0x01, 0x07]), "No device with this id found\n");
    // [2]: a write
    assert_eq!(saul_display(vec![0x81, 0x02]), "");
}

#[test]
fn saul_display_of_a_read() {
    // [1, {}] then the rest: from the third byte on it is an empty map
    let text = saul_display(vec![0x82, 0x01, 0xa0]);
    assert_eq!(text, "{}\n");
}

#[test]
fn saul_requests() {
    let list = saul_handler(&Saul { operation: None });
    assert_eq!(list, vec![0x81, 0x00, 0xff, 0, 0, 0, 0, 0, 0, 0, 0, 0]);
    let read = saul_handler(&Saul { operation: Some(SaulOperation::Read { id: 30 }) });
    assert_eq!(read, vec![0x82, 0x01, 0x18, 30, 0xff, 0, 0, 0, 0, 0, 0, 0]);
    let write = saul_handler(&Saul { operation: Some(SaulOperation::Write { id: 1, data: 200 }) });
    assert_eq!(write, vec![0x83, 0x02, 0x01, 0x18, 200, 0xff, 0, 0, 0, 0, 0, 0]);
}

#[test]
fn sample_command_payloads() {
    let small = sample_command_handler(&SampleCommand { caps: true, repeats: 3 });
    assert_eq!(small, vec![0x82, 0xf5, 0x03, 0xff]);
    // a count of 24 or more takes two bytes; the break byte no longer fits
    let large = sample_command_handler(&SampleCommand { caps: false, repeats: 30 });
    assert_eq!(large, vec![0x82, 0xf4, 0x18, 30]);
}

#[test]
fn sample_command_display_breaks_at_spaces() {
    assert_eq!(sample_command_display(b"hello big world".to_vec()), "hello\nbig\nworld");
}

/// A SAUL answer for a button: a map of a name and a state.
fn button_answer(pressed: bool) -> Vec<u8> {
    let mut b = vec![0xa2, 0x00, 0x64, b'B', b'T', b'N', b'0', 0x01];
    b.push(if pressed { 0xf5 } else { 0xf4 });
    b
}

#[test]
fn button_led_reads_four_buttons_then_sets_four_leds() {
    let cmd = ButtonLed::cmd();
    assert_eq!(cmd.cmd, "Pressure");
    assert_eq!(cmd.required_endpoints, vec!["/Saul".to_owned()]);
    let mut h = ButtonLed::parse(&cmd, ButtonLedCli {});
    let first = h.init();
    assert!(first.method == Method::Post);
    assert_eq!(first.path, "/Saul");
    assert!(first.cbor);
    assert_eq!(first.payload, vec![0x82, 0x01, 0x00, 0xff, 0, 0, 0, 0, 0, 0, 0, 0]);
    let presses = [true, false, true, true];
    for (i, p) in presses.iter().enumerate() {
        let next = h.handle(&button_answer(*p)).expect("a further request");
        if i < 3 {
            assert_eq!(next.payload, vec![0x82, 0x01, (i + 1) as u8, 0xff, 0, 0, 0, 0, 0, 0, 0, 0]);
        } else {
            // LED 4 takes the state of button 0
            assert_eq!(next.payload, vec![0x83, 0x02, 0x04, 0x18, 0xff, 0xff, 0, 0, 0, 0, 0, 0]);
        }
        assert!(!h.is_finished());
    }
    let led5 = h.handle(&[]).expect("LED 5");
    assert_eq!(led5.payload, vec![0x83, 0x02, 0x05, 0x00, 0xff, 0, 0, 0, 0, 0, 0, 0]);
    let led6 = h.handle(&[]).expect("LED 6");
    assert_eq!(led6.payload, vec![0x83, 0x02, 0x06, 0x18, 0xff, 0xff, 0, 0, 0, 0, 0, 0]);
    let led7 = h.handle(&[]).expect("LED 7");
    assert_eq!(led7.payload, vec![0x83, 0x02, 0x07, 0x18, 0xff, 0xff, 0, 0, 0, 0, 0, 0]);
    assert!(!h.want_display());
    assert!(h.handle(&[]).is_none());
    assert!(h.is_finished());
    assert!(h.want_display());
    let mut out = String::new();
    h.display(&mut out);
    assert_eq!(out, "Set LED0 to ON\nSet LED1 to OFF\nSet LED2 to ON\nSet LED3 to ON\n");
}

#[test]
fn button_led_reads_a_state_after_a_missing_map_head() {
    let cmd = ButtonLed::cmd();
    let mut h = ButtonLed::parse(&cmd, ButtonLedCli {});
    h.init();
    // no map head: the first byte is skipped over as if it were one
    let answer = vec![0x00, 0x00, 0x61, b'x', 0x00, 0xf5];
    h.handle(&answer).expect("the read of button 1");
    let mut out = String::new();
    h.display(&mut out);
    assert!(out.starts_with("Set LED0 to ON\n"));
}

fn answer_with_code(code: u8) -> CoapMessage {
    CoapMessage {
        code,
        class: CodeClass::Response,
        code_name: String::new(),
        status_is_error: code >= 0x80,
        token: vec![],
        uri_path: None,
        content_format: None,
        payload: vec![],
    }
}

#[test]
fn write_puts_the_encoded_value_and_reports_other_codes() {
    let cmd = WriteCommand::cmd();
    assert_eq!(cmd.cmd, "write");
    let mut w = WriteCommand::parse("/config/led".to_string(), "[1, true]").ok().expect("a write");
    let put = w.init();
    assert!(put.method == Method::Put);
    assert_eq!(put.path, "/config/led");
    assert_eq!(put.payload, vec![0x82, 0x01, 0xf5]);
    assert!(w.handle(&answer_with_code(0x44)).is_none());
    assert!(!w.want_display());
    assert!(w.is_finished());
    assert!(w.handle(&answer_with_code(0x84)).is_none());
    assert!(w.want_display());
    let mut out = String::new();
    w.display(&mut out);
    assert_eq!(out, "Write failed; unexpected response code 4.04\n");
    assert!(!w.want_display());
}

#[test]
fn write_refuses_a_value_that_does_not_parse() {
    match WriteCommand::parse("/x".to_string(), "[1,") {
        Err(e) => assert!(e.starts_with("Failed to parse CBOR EDN: ")),
        Ok(_) => panic!("an unfinished array was accepted"),
    }
}

fn wrapper_text(cli: &IfconfigWrapperCli) -> String {
    match IfconfigWrapper::parse(cli) {
        CommandType::Text(t) => t,
        _ => panic!("not a text command"),
    }
}

#[test]
fn ifconfig_wrapper_writes_shell_commands() {
    let cmd = IfconfigWrapper::cmd();
    assert_eq!(cmd.required_endpoints, vec!["/.well-known/core".to_owned(), "/shell/ifconfig".to_owned()]);
    let set = IfconfigWrapperCli {
        id: Some(3),
        operation: Some(WrapperOperation::SetValue(SetOperation { key: SetKey::Channel, value: "26".to_string() })),
    };
    assert_eq!(
        wrapper_text(&set),
        "ifconfig 3 set Channel { value: \"26\" } Channel { value: \"26\" }\n"
    );
    assert_eq!(wrapper_text(&IfconfigWrapperCli { id: Some(7), operation: None }), "ifconfig 7");
    assert_eq!(
        wrapper_text(&IfconfigWrapperCli { id: None, operation: Some(WrapperOperation::Up) }),
        "ifconfig --help"
    );
}

#[test]
fn saul_read_with_an_empty_indefinite_string_is_refused_before_cbor_edn() {
    let text = saul_display(vec![0x82, 0x01, 0xa1, 0x00, 0x5f, 0xff]);
    assert!(text.starts_with("Parsing error indefinite-length string closed at once"), "{text}");
}

#[test]
fn a_fresh_library_offers_only_help_and_the_core_resource() {
    let lib = CommandLibrary::default();
    assert_eq!(lib.list_by_cmd(), vec!["help".to_string(), "/.well-known/core".to_string()]);
}

#[test]
fn the_completion_of_f_grows_to_foob() {
    let mut lib = CommandLibrary::default();
    lib.add(Command::new_text_type("FooBar", ""));
    lib.add(Command::new_text_type("FooBaz", ""));
    lib.add(Command::new_text_type("FooBizz", ""));
    let (p, v) = lib.longest_common_prefixed_by_cmd("F");
    assert_eq!(p, "FooB");
    let names: Vec<&str> = v.iter().map(|c| c.cmd.as_str()).collect();
    assert_eq!(names, vec!["FooBar", "FooBaz", "FooBizz"]);
}

#[test]
fn without_endpoints_only_the_jelly_commands_become_available() {
    let mut lib = CommandLibrary::default();
    lib.update_available_cmds_based_on_endpoints(&[]);
    assert_eq!(
        lib.list_by_cmd(),
        vec!["help", "Help", "ForceCmdsAvailable", "/.well-known/core"]
    );
}

#[test]
fn completion_counts_characters_not_bytes() {
    let mut lib = CommandLibrary::default();
    lib.add(Command::new_text_type("äbc", ""));
    lib.add(Command::new_text_type("äbd", ""));
    let (p, v) = lib.longest_common_prefixed_by_cmd("ä");
    assert_eq!(p, "äb");
    assert_eq!(v.len(), 2);
}
