//! The log of CoAP requests sent to the device and the responses that
//! came back, and how they are summed up as text.


use vstd::prelude::*;

use crate::cbor::cbor_edn_text;
use crate::cbor::cbor_to_edn;
use crate::columns::hex_list;
use crate::columns::hex_list_string;
use crate::columns::hex_lower;
use crate::columns::hex_lower_exec;
use crate::datatypes::log::now;
use crate::datatypes::log::timestamp_text;
use crate::datatypes::log::Timestamp;
use crate::numfmt::decimal;
use crate::numfmt::digits;
use crate::numfmt::hex_upper;
use crate::numfmt::pad_left;
use crate::numfmt::pad_left_exec;
use crate::text::lossy_utf8;
use crate::text::string_from_chars;
use crate::text::string_from_utf8_lossy;
use crate::text::string_push_str;

verus! {

/// The sum of the bytes of `t`.
pub open spec fn byte_sum(t: Seq<u8>) -> nat
    decreases t.len(),
{
    if t.len() == 0 {
        0
    } else {
        byte_sum(t.drop_last()) + t.last() as nat
    }
}

/// The number a token is tracked by: the sum of its bytes, or `u64::MAX`
/// for a token longer than eight bytes.
pub open spec fn token_value(t: Seq<u8>) -> u64 {
    if t.len() > 8 {
        u64::MAX
    } else {
        byte_sum(t) as u64
    }
}

/// The number a token is tracked by (see `token_value`).
pub fn token_to_u64(token: &[u8]) -> (r: u64)
    ensures
        r == token_value(token@),
{
    if token.len() > 8 {
        u64::MAX
    } else {
        let mut token_u64: u64 = 0;
        for i in 0..token.len()
            invariant
                token.len() <= 8,
                token_u64 == byte_sum(token@.take(i as int)),
                token_u64 <= 255 * i,
        {
            assert(token@.take(i + 1).drop_last() =~= token@.take(i as int));
            token_u64 = token_u64 + token[i] as u64;
        }
        assert(token@.take(token@.len() as int) =~= token@);
        token_u64
    }
}

/// The kind of a CoAP message code, as coap-lite's `MessageClass` sorts
/// it.
#[derive(Clone, Copy, PartialEq, Eq, Structural, Debug)]
pub enum CodeClass {
    Empty,
    Request,
    Response,
    Reserved,
}

/// A content format of a message: its number and its name.
pub struct ContentFormatInfo {
    pub number: u16,
    pub name: String,
}

/// A CoAP message, as the values the log reads of it.
pub struct CoapMessage {
    /// The code byte.
    pub code: u8,
    /// The kind of the code.
    pub class: CodeClass,
    /// The name of the request method for a request; of the response
    /// status (`UnKnown` for a message that is no response) otherwise.
    pub code_name: String,
    /// Whether the response status is an error.
    pub status_is_error: bool,
    pub token: Vec<u8>,
    /// The `Uri-Path` options, when there are any.
    pub uri_path: Option<Vec<Vec<u8>>>,
    /// The content format, when it is one coap-lite knows.
    pub content_format: Option<ContentFormatInfo>,
    pub payload: Vec<u8>,
}

/// A message as a value.
pub struct MessageView {
    pub code: u8,
    pub class: CodeClass,
    pub code_name: Seq<char>,
    pub status_is_error: bool,
    pub token: Seq<u8>,
    pub uri_path: Option<Seq<Seq<u8>>>,
    pub content_format: Option<(u16, Seq<char>)>,
    pub payload: Seq<u8>,
}

impl View for CoapMessage {
    type V = MessageView;

    open spec fn view(&self) -> MessageView {
        MessageView {
            code: self.code,
            class: self.class,
            code_name: self.code_name@,
            status_is_error: self.status_is_error,
            token: self.token@,
            uri_path: match self.uri_path {
                Some(p) => Some(p@.map_values(|o: Vec<u8>| o@)),
                None => None,
            },
            content_format: match self.content_format {
                Some(c) => Some((c.number, c.name@)),
                None => None,
            },
            payload: self.payload@,
        }
    }
}

/// The path of a request: `/` and each `Uri-Path` option in turn (read
/// as UTF-8, lossily), or `/` alone without any.
pub open spec fn path_text(p: Option<Seq<Seq<u8>>>) -> Seq<char> {
    match p {
        Some(opts) => path_segments(opts),
        None => "/"@,
    }
}

/// Each option as `/` and its text.
pub open spec fn path_segments(opts: Seq<Seq<u8>>) -> Seq<char>
    decreases opts.len(),
{
    if opts.len() == 0 {
        Seq::empty()
    } else {
        path_segments(opts.drop_last()) + "/"@ + lossy_utf8(opts.last())
    }
}

/// The token as the request title shows it: the two bytes as a
/// little-endian number, `0xffff` for a token of another length.
pub open spec fn token_le16(t: Seq<u8>) -> nat {
    if t.len() == 2 {
        t[0] as nat + 256 * t[1] as nat
    } else {
        0xffff
    }
}

/// The short title of a request: its method and path.
pub open spec fn request_title_short(m: MessageView) -> Seq<char> {
    match m.class {
        CodeClass::Empty => "Empty"@,
        CodeClass::Request => " \u{2190} Req("@ + m.code_name + " "@ + path_text(m.uri_path) + ")"@,
        CodeClass::Response => "Response"@,
        CodeClass::Reserved => "Reserved"@,
    }
}

/// The title of a request after its time stamp: its method, path and
/// token.
pub open spec fn request_title_rest(m: MessageView) -> Seq<char> {
    match m.class {
        CodeClass::Empty => "Empty"@,
        CodeClass::Request => " \u{2190} Req("@ + m.code_name + " "@ + path_text(m.uri_path) + ")[0x"@
            + pad_left(hex_lower(token_le16(m.token)), 4, '0') + "]"@,
        CodeClass::Response => "Response"@,
        CodeClass::Reserved => "Reserved"@,
    }
}

/// The summary of a response: its status, its content format when it has
/// one, its token and its size.
pub open spec fn response_status(m: MessageView) -> Seq<char> {
    " \u{2192} Res("@ + m.code_name + match m.content_format {
        Some((_, name)) => "/"@ + name,
        None => Seq::empty(),
    } + ")[0x"@ + pad_left(digits(token_value(m.token) as nat, 16), 3, '0') + "]: "@ + digits(
        m.payload.len(),
        10,
    ) + " bytes"@
}

/// The short summary of a response: its status and content format.
pub open spec fn response_status_short(m: MessageView) -> Seq<char> {
    " \u{2192} Res("@ + m.code_name + match m.content_format {
        Some((_, name)) => "/"@ + name,
        None => Seq::empty(),
    } + ")"@
}

/// Link-format text with a line break before every link but the first:
/// each `,<` becomes `,` newline `<`.
pub open spec fn break_links(s: Seq<char>) -> Seq<char>
    decreases s.len(),
{
    if s.len() == 0 {
        s
    } else if s.len() >= 2 && s[0] == ',' && s[1] == '<' {
        ",\n<"@ + break_links(s.skip(2))
    } else {
        seq![s[0]] + break_links(s.skip(1))
    }
}

/// Whether the message is a response with an error status.
pub open spec fn is_error_response(m: MessageView) -> bool {
    m.class == CodeClass::Response && m.status_is_error
}

/// How a response's payload is shown, given what cbor-edn makes of it:
/// link format with a line per link, plain text and the diagnostic text
/// of an error response as text, CBOR in diagnostic notation, anything
/// else in hexadecimal.
pub open spec fn payload_text(m: MessageView, edn: Result<Seq<char>, Seq<char>>) -> Seq<char> {
    if m.payload.len() == 0 {
        "Empty payload"@
    } else {
        match m.content_format {
            Some((40, _)) => break_links(lossy_utf8(m.payload)),
            Some((0, _)) => lossy_utf8(m.payload),
            None if is_error_response(m) => lossy_utf8(m.payload),
            Some((60, _)) => match edn {
                Ok(t) => t,
                Err(e) => "Parsing error "@ + e + ", content "@ + hex_list(m.payload),
            },
            _ => hex_list(m.payload),
        }
    }
}

/// `s` with each `,<` turned into `,` newline `<` (see `break_links`).
pub fn break_links_exec(s: &str) -> (r: String)
    ensures
        r@ == break_links(s@),
{
    let v = crate::text::chars_of(s);
    let mut out: Vec<char> = Vec::new();
    let mut i: usize = 0;
    assert(v@.skip(0) =~= s@);
    assert(out@ + break_links(v@.skip(0)) =~= break_links(s@));
    while i < v.len()
        invariant
            i <= v@.len(),
            v@ == s@,
            out@ + break_links(v@.skip(i as int)) == break_links(s@),
        decreases v@.len() - i,
    {
        let ghost rest = v@.skip(i as int);
        if i + 1 < v.len() && v[i] == ',' && v[i + 1] == '<' {
            let ghost before = out@;
            out.push(',');
            out.push('\n');
            out.push('<');
            proof {
                reveal_strlit(",\n<");
            }
            assert(rest[0] == ',' && rest[1] == '<');
            assert(break_links(rest) == ",\n<"@ + break_links(rest.skip(2)));
            assert(out@ =~= before + ",\n<"@);
            assert(rest.skip(2) =~= v@.skip(i + 2));
            assert(out@ + break_links(v@.skip(i + 2)) =~= break_links(s@));
            i = i + 2;
        } else {
            let ghost before = out@;
            out.push(v[i]);
            assert(break_links(rest) == seq![rest[0]] + break_links(rest.skip(1)));
            assert(out@ =~= before + seq![rest[0]]);
            assert(rest.skip(1) =~= v@.skip(i + 1));
            assert(out@ + break_links(v@.skip(i + 1)) =~= break_links(s@));
            i = i + 1;
        }
    }
    assert(v@.skip(i as int) =~= Seq::<char>::empty());
    assert(out@ =~= break_links(s@));
    string_from_chars(out.as_slice())
}

/// What coap-lite's `Packet::from_bytes` reads of a message: its code
/// byte, its token, its `Uri-Path` options (when it has any), the number
/// of its content format (when it is one coap-lite knows) and its payload;
/// `None` when the bytes are no CoAP message.
pub uninterp spec fn coap_packet(data: Seq<u8>) -> Option<(u8, Seq<u8>, Option<Seq<Seq<u8>>>, Option<u16>, Seq<u8>)>;

/// Reads a CoAP message (coap-lite's `Packet::from_bytes`; see
/// `coap_packet`).
#[verifier::external_body]
fn coap_from_bytes(data: &[u8]) -> (r: Option<(u8, Vec<u8>, Option<Vec<Vec<u8>>>, Option<u16>, Vec<u8>)>)
    ensures
        match coap_packet(data@) {
            Some((code, token, path, cf, payload)) => r matches Some((c, t, p, f, d)) && c == code && t@ == token
                && match p {
                Some(v) => path == Some(v@.map_values(|o: Vec<u8>| o@)),
                None => path is None,
            } && f == cf && d@ == payload,
            None => r is None,
        },
{
    match coap_lite::Packet::from_bytes(data) {
        Ok(p) => Some((
            u8::from(p.header.code),
            p.get_token().to_vec(),
            p.get_option(coap_lite::CoapOption::UriPath).map(|l| l.iter().cloned().collect()),
            p.get_content_format().map(|c| usize::from(c) as u16),
            p.payload,
        )),
        Err(_) => None,
    }
}

/// What coap-lite's `MessageClass` holds for a code byte: the kind of the
/// code, with the method's name for a request, and the status's name and
/// whether it is an error for a response.
pub enum CodeInfo {
    Empty,
    Request(String),
    Response(String, bool),
    Reserved,
}

/// A code's kind as a value.
pub enum CodeInfoView {
    Empty,
    Request(Seq<char>),
    Response(Seq<char>, bool),
    Reserved,
}

impl View for CodeInfo {
    type V = CodeInfoView;

    open spec fn view(&self) -> CodeInfoView {
        match self {
            CodeInfo::Empty => CodeInfoView::Empty,
            CodeInfo::Request(n) => CodeInfoView::Request(n@),
            CodeInfo::Response(n, e) => CodeInfoView::Response(n@, *e),
            CodeInfo::Reserved => CodeInfoView::Reserved,
        }
    }
}

/// What coap-lite makes of a code byte (`MessageClass::from`): its kind,
/// with the `Debug` name of the request method or of the response status,
/// and for a response `ResponseType::is_error`.
pub uninterp spec fn coap_code_info(code: u8) -> CodeInfoView;

/// The kind of a code byte (see `coap_code_info`).
#[verifier::external_body]
fn code_info(code: u8) -> (r: CodeInfo)
    ensures
        r@ == coap_code_info(code),
{
    match coap_lite::MessageClass::from(code) {
        coap_lite::MessageClass::Empty => CodeInfo::Empty,
        coap_lite::MessageClass::Request(r) => CodeInfo::Request(format!("{r:?}")),
        coap_lite::MessageClass::Response(r) => CodeInfo::Response(format!("{r:?}"), r.is_error()),
        coap_lite::MessageClass::Reserved(_) => CodeInfo::Reserved,
    }
}

/// coap-lite's status `ResponseType::UnKnown`: its `Debug` name, and
/// `is_error`, which holds of it as the last status (statuses compare in
/// their order, and every one from `BadRequest` on is an error).
#[verifier::external_body]
fn unknown_status() -> (r: (String, bool))
    ensures
        r.0@ == "UnKnown"@,
        r.1,
{
    let unknown = coap_lite::ResponseType::UnKnown;
    (format!("{unknown:?}"), unknown.is_error())
}

/// The kind of a code, the name shown for it and whether it is an error:
/// for a request the method, for a response its status, and for what is
/// neither the unknown status, which counts as an error.
pub open spec fn code_summary(code: u8) -> (CodeClass, Seq<char>, bool) {
    match coap_code_info(code) {
        CodeInfoView::Empty => (CodeClass::Empty, "UnKnown"@, true),
        CodeInfoView::Request(n) => (CodeClass::Request, n, true),
        CodeInfoView::Response(n, e) => (CodeClass::Response, n, e),
        CodeInfoView::Reserved => (CodeClass::Reserved, "UnKnown"@, true),
    }
}

/// The kind, name and error status of a code byte (see `code_summary`).
fn summarize_code(code: u8) -> (r: (CodeClass, String, bool))
    ensures
        (r.0, r.1@, r.2) == code_summary(code),
{
    match code_info(code) {
        CodeInfo::Empty => {
            let (n, e) = unknown_status();
            (CodeClass::Empty, n, e)
        },
        CodeInfo::Request(n) => {
            let (_, e) = unknown_status();
            (CodeClass::Request, n, e)
        },
        CodeInfo::Response(n, e) => (CodeClass::Response, n, e),
        CodeInfo::Reserved => {
            let (n, e) = unknown_status();
            (CodeClass::Reserved, n, e)
        },
    }
}

/// The name coap-lite gives the content format of this number (the
/// `Debug` text of its `ContentFormat`), if it knows one.
pub uninterp spec fn coap_format_name(number: u16) -> Option<Seq<char>>;

/// The name of a content format (see `coap_format_name`).
#[verifier::external_body]
fn format_name(number: u16) -> (r: Option<String>)
    ensures
        match r {
            Some(t) => coap_format_name(number) == Some(t@),
            None => coap_format_name(number) is None,
        },
{
    match coap_lite::ContentFormat::try_from(number as usize) {
        Ok(c) => Some(format!("{c:?}")),
        Err(_) => None,
    }
}

/// The name shown for a content format: coap-lite's, or none.
pub open spec fn format_label(number: u16) -> Seq<char> {
    match coap_format_name(number) {
        Some(t) => t,
        None => Seq::empty(),
    }
}

/// A message as the shell keeps it, read from its bytes (see
/// `coap_packet`, `coap_code_info` and `coap_format_name`); `None` when the
/// bytes are no CoAP message.
pub open spec fn decoded_message(data: Seq<u8>) -> Option<MessageView> {
    match coap_packet(data) {
        Some((code, token, path, cf, payload)) => Some(
            MessageView {
                code,
                class: code_summary(code).0,
                code_name: code_summary(code).1,
                status_is_error: code_summary(code).2,
                token,
                uri_path: path,
                content_format: match cf {
                    Some(n) => Some((n, format_label(n))),
                    None => None,
                },
                payload,
            },
        ),
        None => None,
    }
}

/// Reads a message from its bytes (see `decoded_message`).
pub fn decode_message(data: &[u8]) -> (r: Option<CoapMessage>)
    ensures
        match decoded_message(data@) {
            Some(m) => r matches Some(x) && x@ == m,
            None => r is None,
        },
{
    match coap_from_bytes(data) {
        Some((code, token, uri_path, cf, payload)) => {
            let (class, code_name, status_is_error) = summarize_code(code);
            let content_format = match cf {
                Some(n) => {
                    let name = match format_name(n) {
                        Some(t) => t,
                        None => String::new(),
                    };
                    Some(ContentFormatInfo { number: n, name })
                },
                None => None,
            };
            Some(CoapMessage { code, class, code_name, status_is_error, token, uri_path, content_format, payload })
        },
        None => None,
    }
}

/// A copy of a message.
pub fn copy_message(m: &CoapMessage) -> (r: CoapMessage)
    ensures
        r@ == m@,
{
    let uri_path = match &m.uri_path {
        Some(opts) => {
            let mut v: Vec<Vec<u8>> = Vec::new();
            for i in 0..opts.len()
                invariant
                    v@.len() == i,
                    forall|j: int| 0 <= j < i ==> #[trigger] v@[j]@ == opts@[j]@,
            {
                v.push(crate::seqs::copy_bytes(opts[i].as_slice()));
            }
            assert(v@.map_values(|o: Vec<u8>| o@) =~= opts@.map_values(|o: Vec<u8>| o@));
            Some(v)
        },
        None => None,
    };
    let content_format = match &m.content_format {
        Some(c) => Some(ContentFormatInfo { number: c.number, name: c.name.clone() }),
        None => None,
    };
    CoapMessage {
        code: m.code,
        class: m.class,
        code_name: m.code_name.clone(),
        status_is_error: m.status_is_error,
        token: m.token.clone(),
        uri_path,
        content_format,
        payload: m.payload.clone(),
    }
}

/// The path of a request (see `path_text`).
pub(crate) fn path_string(p: &Option<Vec<Vec<u8>>>) -> (r: String)
    ensures
        r@ == path_text(match p {
            Some(v) => Some(v@.map_values(|o: Vec<u8>| o@)),
            None => None,
        }),
{
    match p {
        Some(opts) => {
            let ghost os = opts@.map_values(|o: Vec<u8>| o@);
            let mut out = String::new();
            assert(os.take(0) =~= Seq::<Seq<u8>>::empty());
            for i in 0..opts.len()
                invariant
                    os == opts@.map_values(|o: Vec<u8>| o@),
                    out@ == path_segments(os.take(i as int)),
            {
                string_push_str(&mut out, "/");
                string_push_str(&mut out, string_from_utf8_lossy(opts[i].as_slice()).as_str());
                assert(os.take(i + 1).drop_last() =~= os.take(i as int));
                assert(os[i as int] == opts@[i as int]@);
            }
            assert(os.take(os.len() as int) =~= os);
            out
        },
        None => "/".to_owned(),
    }
}

/// The short title of a request (see `request_title_short`).
pub fn message_title_short(m: &CoapMessage) -> (r: String)
    ensures
        r@ == request_title_short(m@),
{
    match m.class {
        CodeClass::Empty => "Empty".to_owned(),
        CodeClass::Request => {
            let mut out = " \u{2190} Req(".to_owned();
            string_push_str(&mut out, m.code_name.as_str());
            string_push_str(&mut out, " ");
            string_push_str(&mut out, path_string(&m.uri_path).as_str());
            string_push_str(&mut out, ")");
            out
        },
        CodeClass::Response => "Response".to_owned(),
        CodeClass::Reserved => "Reserved".to_owned(),
    }
}

/// The title of a request after its time stamp (see
/// `request_title_rest`).
pub fn message_title(m: &CoapMessage) -> (r: String)
    ensures
        r@ == request_title_rest(m@),
{
    match m.class {
        CodeClass::Empty => "Empty".to_owned(),
        CodeClass::Request => {
            let mut out = " \u{2190} Req(".to_owned();
            string_push_str(&mut out, m.code_name.as_str());
            string_push_str(&mut out, " ");
            string_push_str(&mut out, path_string(&m.uri_path).as_str());
            string_push_str(&mut out, ")[0x");
            let t: u64 = if m.token.len() == 2 {
                m.token[0] as u64 + 256 * m.token[1] as u64
            } else {
                0xffff
            };
            let v = pad_left_exec(hex_lower_exec(t), 4, '0');
            string_push_str(&mut out, string_from_chars(v.as_slice()).as_str());
            string_push_str(&mut out, "]");
            out
        },
        CodeClass::Response => "Response".to_owned(),
        CodeClass::Reserved => "Reserved".to_owned(),
    }
}

/// The summary of a response (see `response_status`).
pub fn status_text(m: &CoapMessage) -> (r: String)
    ensures
        r@ == response_status(m@),
{
    let mut out = " \u{2192} Res(".to_owned();
    string_push_str(&mut out, m.code_name.as_str());
    match &m.content_format {
        Some(c) => {
            string_push_str(&mut out, "/");
            string_push_str(&mut out, c.name.as_str());
        },
        None => {},
    }
    string_push_str(&mut out, ")[0x");
    let token = token_to_u64(m.token.as_slice());
    let v = hex_upper(token, 3);
    string_push_str(&mut out, string_from_chars(v.as_slice()).as_str());
    string_push_str(&mut out, "]: ");
    string_push_str(&mut out, decimal(m.payload.len() as u64).as_str());
    string_push_str(&mut out, " bytes");
    out
}

/// The short summary of a response (see `response_status_short`).
pub fn status_text_short(m: &CoapMessage) -> (r: String)
    ensures
        r@ == response_status_short(m@),
{
    let mut out = " \u{2192} Res(".to_owned();
    string_push_str(&mut out, m.code_name.as_str());
    match &m.content_format {
        Some(c) => {
            string_push_str(&mut out, "/");
            string_push_str(&mut out, c.name.as_str());
        },
        None => {},
    }
    string_push_str(&mut out, ")");
    out
}

/// How a response's payload is shown, given what cbor-edn made of it
/// (see `payload_text`).
pub fn payload_text_with(m: &CoapMessage, edn: Result<String, String>) -> (r: String)
    ensures
        r@ == payload_text(
            m@,
            match edn {
                Ok(t) => Ok(t@),
                Err(e) => Err(e@),
            },
        ),
{
    if m.payload.len() == 0 {
        return "Empty payload".to_owned();
    }
    let is_error = m.class == CodeClass::Response && m.status_is_error;
    let cf: Option<u16> = match &m.content_format {
        Some(c) => Some(c.number),
        None => None,
    };
    match cf {
        Some(40) => {
            let text = string_from_utf8_lossy(m.payload.as_slice());
            break_links_exec(text.as_str())
        },
        Some(0) => string_from_utf8_lossy(m.payload.as_slice()),
        None if is_error => string_from_utf8_lossy(m.payload.as_slice()),
        Some(60) => match edn {
            Ok(t) => t,
            Err(e) => {
                let mut out = "Parsing error ".to_owned();
                string_push_str(&mut out, e.as_str());
                string_push_str(&mut out, ", content ");
                string_push_str(&mut out, hex_list_string(m.payload.as_slice()).as_str());
                out
            },
        },
        _ => hex_list_string(m.payload.as_slice()),
    }
}

/// How a response's payload is shown (see `payload_text`); CBOR is put
/// into diagnostic notation by cbor-edn.
pub fn message_payload_text(m: &CoapMessage) -> (r: String)
    ensures
        r@ == payload_text(m@, crate::cbor::edn_of(m@.payload)),
{
    let cbor = match &m.content_format {
        Some(c) => c.number == 60,
        None => false,
    };
    let edn = if cbor && m.payload.len() > 0 {
        crate::cbor::edn_text(m.payload.as_slice())
    } else {
        Ok(String::new())
    };
    payload_text_with(m, edn)
}

/// A response that came back, with the time it came.
pub struct Response {
    time: Timestamp,
    coap: CoapMessage,
}

impl Response {
    /// The response, stamped with the current time.
    pub fn new(coap: CoapMessage) -> (r: Self)
        ensures
            r.message()@ == coap@,
    {
        Self { time: now(), coap }
    }

    /// The message.
    pub closed spec fn message(&self) -> CoapMessage {
        self.coap
    }

    /// When the response came.
    pub closed spec fn came(&self) -> Timestamp {
        self.time
    }

    /// When the response came, as `[HH:MM:SS.mmm]` (UTC).
    pub fn get_timestamp(&self) -> (r: String)
        ensures
            r@ == crate::datatypes::log::clock_text(self.came()@),
    {
        timestamp_text(&self.time)
    }

    /// The summary of the response, and whether its status is an error
    /// (it is then shown in red, else in green).
    pub fn get_status(&self) -> (r: (String, bool))
        ensures
            r.0@ == response_status(self.message()@),
            r.1 == self.message()@.status_is_error,
    {
        (status_text(&self.coap), self.coap.status_is_error)
    }

    /// The short summary of the response, and whether its status is an
    /// error.
    pub fn get_status_short(&self) -> (r: (String, bool))
        ensures
            r.0@ == response_status_short(self.message()@),
            r.1 == self.message()@.status_is_error,
    {
        (status_text_short(&self.coap), self.coap.status_is_error)
    }

    /// How the payload is shown (see `payload_text`).
    pub fn get_payload(&self) -> (r: String)
        ensures
            r@ == payload_text(self.message()@, crate::cbor::edn_of(self.message()@.payload)),
    {
        message_payload_text(&self.coap)
    }
}

/// A request that was sent, with the time it was sent, the number its
/// token is tracked by, and the responses to it.
pub struct Request {
    pub time: Timestamp,
    pub req: CoapMessage,
    pub token: u64,
    pub res: Vec<Response>,
}

impl Request {
    /// The request, stamped with the current time, without responses.
    pub fn new(req: CoapMessage) -> (r: Self)
        ensures
            r.req@ == req@,
            r.token == token_value(req@.token),
            r.res@.len() == 0,
    {
        let token = token_to_u64(req.token.as_slice());
        Self { time: now(), req, token, res: Vec::new() }
    }

    /// Adds a response, stamped with the current time.
    pub fn add_response(&mut self, response: CoapMessage)
        ensures
            final(self).req@ == old(self).req@,
            final(self).token == old(self).token,
            final(self).res@.len() == old(self).res@.len() + 1,
            forall|i: int| 0 <= i < old(self).res@.len() ==> final(self).res@[i] == old(self).res@[i],
            final(self).res@.last().message()@ == response@,
    {
        self.res.push(Response::new(response));
    }

    /// The title: the time stamp, then the method, path and token (see
    /// `request_title_rest`).
    pub fn get_request_title(&self) -> (r: String)
        ensures
            exists|stamp: Seq<char>| r@ == stamp + request_title_rest(self.req@),
    {
        let mut out = timestamp_text(&self.time);
        let ghost stamp = out@;
        string_push_str(&mut out, message_title(&self.req).as_str());
        out
    }

    /// The short title: the method and path.
    pub fn get_request_title_short(&self) -> (r: String)
        ensures
            r@ == request_title_short(self.req@),
    {
        message_title_short(&self.req)
    }
}

/// Whether a request is tracked by `token`.
pub open spec fn has_token(token: u64) -> spec_fn(Request) -> bool {
    |q: Request| q.token == token
}

/// The requests sent, oldest first.
pub struct CoapLog {
    pub requests: Vec<Request>,
}

impl CoapLog {
    /// An empty log.
    pub fn new() -> (r: Self)
        ensures
            r.requests@.len() == 0,
    {
        Self { requests: Vec::new() }
    }

    /// Logs a request that was sent.
    pub fn push(&mut self, request: CoapMessage)
        ensures
            final(self).requests@.len() == old(self).requests@.len() + 1,
            forall|i: int| 0 <= i < old(self).requests@.len() ==> final(self).requests@[i] == old(self).requests@[i],
            final(self).requests@.last().req@ == request@,
            final(self).requests@.last().token == token_value(request@.token),
            final(self).requests@.last().res@.len() == 0,
    {
        self.requests.push(Request::new(request));
    }

    /// The first request tracked by `token`, to change in place.
    pub fn get_request_by_token(&mut self, token: u64) -> (r: Option<&mut Request>)
        ensures
            ({
                let reqs = old(self).requests@;
                let i = crate::seqs::first_index(reqs, has_token(token));
                if i < reqs.len() {
                    r is Some && *r->0 == reqs[i] && final(self).requests@ == reqs.update(i, *final(r->0))
                } else {
                    r is None && final(self).requests@ == reqs
                }
            }),
    {
        let i = self.index_by_token(token);
        if i < self.requests.len() {
            Some(&mut self.requests[i])
        } else {
            None
        }
    }

    /// Where the first request tracked by `token` is; the number of
    /// requests when none is.
    pub fn index_by_token(&self, token: u64) -> (i: usize)
        ensures
            i == crate::seqs::first_index(self.requests@, has_token(token)),
            i <= self.requests@.len(),
    {
        let ghost reqs = self.requests@;
        let mut i: usize = 0;
        while i < self.requests.len()
            invariant
                self.requests@ == reqs,
                i <= reqs.len(),
                forall|j: int| 0 <= j < i ==> !has_token(token)(#[trigger] reqs[j]),
            decreases reqs.len() - i,
        {
            if self.requests[i].token == token {
                assert(has_token(token)(reqs[i as int]));
                proof {
                    crate::seqs::lemma_first_index(reqs, has_token(token), i as int);
                }
                return i;
            }
            assert(!has_token(token)(reqs[i as int]));
            i = i + 1;
        }
        proof {
            crate::seqs::lemma_first_index(reqs, has_token(token), i as int);
        }
        i
    }
}

} // verus!
