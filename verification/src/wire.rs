//! The bytes on the serial line: slipmux frames, which carry diagnostic
//! text, CoAP configuration messages and IP packets.
//!
//! Received bytes go through slipmux's decoder, which keeps its state from
//! one read to the next, and come out as frames; outgoing text, requests
//! and packets are framed by slipmux's encoder.

use vstd::prelude::*;

use crate::app::handler::method_code;
use crate::app::handler::path_options;
use crate::app::handler::OutgoingRequest;
use crate::command::request::RequestView;
use crate::numfmt::decimal;
use crate::numfmt::digits;
use crate::text::string_push_str;
use crate::text::utf8;
use slipmux::Error;
use slipmux::Slipmux;

verus! {

#[verifier::external_type_specification]
#[verifier::external_body]
pub struct ExDecoder(slipmux::Decoder);

#[verifier::external_type_specification]
#[verifier::external_body]
pub struct ExBufferedFrameHandler(slipmux::BufferedFrameHandler);

/// What a slipmux frame carries.
pub enum FrameContent {
    /// Diagnostic text.
    Diagnostic(String),
    /// A CoAP configuration message.
    Configuration(Vec<u8>),
    /// An IP packet.
    Packet(Vec<u8>),
}

/// What a slipmux frame carries, as values.
pub enum ContentView {
    Diagnostic(Seq<char>),
    Configuration(Seq<u8>),
    Packet(Seq<u8>),
}

impl View for FrameContent {
    type V = ContentView;

    open spec fn view(&self) -> ContentView {
        match self {
            FrameContent::Diagnostic(s) => ContentView::Diagnostic(s@),
            FrameContent::Configuration(c) => ContentView::Configuration(c@),
            FrameContent::Packet(p) => ContentView::Packet(p@),
        }
    }
}

/// Why slipmux's decoder refused a frame (slipmux's `Error`).
#[derive(Clone, Copy, PartialEq, Eq, Structural, Debug)]
pub enum FrameError {
    NotEnoughSpace,
    BadFraming,
    /// The frame started with a byte that names no frame type.
    BadFrameType(u8),
    /// A configuration frame's checksum did not match.
    BadFcs,
    /// The frame was aborted by an escape before its end.
    Abort,
}

/// A frame as received: its content, or why it was refused.
pub open spec fn frame_view(f: Result<FrameContent, FrameError>) -> Result<ContentView, FrameError> {
    match f {
        Ok(c) => Ok(c@),
        Err(e) => Err(e),
    }
}

/// The views of frames as received.
pub open spec fn frame_views(s: Seq<Result<FrameContent, FrameError>>) -> Seq<Result<ContentView, FrameError>> {
    s.map_values(|f: Result<FrameContent, FrameError>| frame_view(f))
}

/// The frames slipmux's `Decoder`, with a `BufferedFrameHandler`, gives
/// for the byte stream `bytes` fed to it from its start, in order.
pub uninterp spec fn slipmux_frames(bytes: Seq<u8>) -> Seq<Result<ContentView, FrameError>>;

/// A fresh slipmux decoder (slipmux's `Decoder::new`).
#[verifier::external_body]
fn new_decoder() -> (r: slipmux::Decoder) {
    slipmux::Decoder::new()
}

/// A fresh frame collector (slipmux's `BufferedFrameHandler::new`).
#[verifier::external_body]
fn new_frame_handler() -> (r: slipmux::BufferedFrameHandler) {
    slipmux::BufferedFrameHandler::new()
}

/// Decodes a stream of bytes into slipmux frames, a read at a time: a
/// frame split over several reads comes out once its last byte is fed.
pub struct FrameDecoder {
    decoder: slipmux::Decoder,
    handler: slipmux::BufferedFrameHandler,
    fed: Ghost<Seq<u8>>,
}

impl FrameDecoder {
    /// The bytes fed so far.
    pub closed spec fn fed(&self) -> Seq<u8> {
        self.fed@
    }

    /// A decoder that has been fed nothing.
    pub fn new() -> (r: Self)
        ensures
            r.fed() == Seq::<u8>::empty(),
    {
        Self { decoder: new_decoder(), handler: new_frame_handler(), fed: Ghost(Seq::empty()) }
    }

    /// Feeds one byte (slipmux's `Decoder::decode` with the frame
    /// collector) and takes the frames it completed: those the stream fed
    /// so far gives beyond what it gave before this byte. The decoder only
    /// ever adds frames at the end of what it collected.
    #[verifier::external_body]
    fn decode_byte(&mut self, byte: u8) -> (r: Vec<Result<FrameContent, FrameError>>)
        ensures
            final(self).fed() == old(self).fed().push(byte),
            slipmux_frames(old(self).fed()) + frame_views(r@) == slipmux_frames(final(self).fed()),
    {
        let _ = self.decoder.decode(byte, &mut self.handler);
        let mut out = Vec::new();
        for f in self.handler.results.drain(..) {
            out.push(match f {
                Ok(Slipmux::Diagnostic(s)) => Ok(FrameContent::Diagnostic(s)),
                Ok(Slipmux::Configuration(c)) => Ok(FrameContent::Configuration(c)),
                Ok(Slipmux::Packet(p)) => Ok(FrameContent::Packet(p)),
                Err(Error::NotEnoughSpace) => Err(FrameError::NotEnoughSpace),
                Err(Error::BadFraming) => Err(FrameError::BadFraming),
                Err(Error::BadFrameType(b)) => Err(FrameError::BadFrameType(b)),
                Err(Error::BadFCS) => Err(FrameError::BadFcs),
                Err(Error::Abort) => Err(FrameError::Abort),
            });
        }
        out
    }

    /// Feeds the bytes of one read and returns the frames they completed,
    /// in order: after it, the frames returned so far are exactly those of
    /// the whole stream fed.
    pub fn feed(&mut self, bytes: &[u8]) -> (r: Vec<Result<FrameContent, FrameError>>)
        ensures
            final(self).fed() == old(self).fed() + bytes@,
            slipmux_frames(old(self).fed()) + frame_views(r@) == slipmux_frames(final(self).fed()),
    {
        let ghost start = self.fed();
        let mut out: Vec<Result<FrameContent, FrameError>> = Vec::new();
        assert(start + bytes@.take(0) =~= start);
        assert(slipmux_frames(start) + frame_views(out@) =~= slipmux_frames(start));
        for i in 0..bytes.len()
            invariant
                self.fed() == start + bytes@.take(i as int),
                slipmux_frames(start) + frame_views(out@) == slipmux_frames(self.fed()),
        {
            let ghost before = self.fed();
            let ghost out_before = out@;
            let mut more = self.decode_byte(bytes[i]);
            let ghost got = more@;
            out.append(&mut more);
            proof {
                assert(start + bytes@.take(i + 1) =~= before.push(bytes@[i as int]));
                assert(frame_views(out@) =~= frame_views(out_before) + frame_views(got));
                assert(slipmux_frames(start) + frame_views(out@) =~= (slipmux_frames(start) + frame_views(
                    out_before,
                )) + frame_views(got));
            }
        }
        assert(bytes@.take(bytes@.len() as int) =~= bytes@);
        out
    }
}

/// How `Debug` shows a slipmux error.
pub open spec fn error_text(e: FrameError) -> Seq<char> {
    match e {
        FrameError::NotEnoughSpace => "NotEnoughSpace"@,
        FrameError::BadFraming => "BadFraming"@,
        FrameError::BadFrameType(b) => "BadFrameType("@ + digits(b as nat, 10) + ")"@,
        FrameError::BadFcs => "BadFCS"@,
        FrameError::Abort => "Abort"@,
    }
}

/// The numbers of `bytes` in decimal, separated by `, `.
pub open spec fn byte_list(bytes: Seq<u8>) -> Seq<char>
    decreases bytes.len(),
{
    if bytes.len() == 0 {
        Seq::empty()
    } else if bytes.len() == 1 {
        digits(bytes[0] as nat, 10)
    } else {
        byte_list(bytes.drop_last()) + ", "@ + digits(bytes.last() as nat, 10)
    }
}

/// What a frame read from the device means to the shell: its content; a
/// frame the decoder refused becomes a diagnostic line that shows the error
/// and the bytes of the read it came in (`Received (Err(BadFCS)): [192,
/// 169]` and a newline).
pub open spec fn frame_meaning(f: Result<ContentView, FrameError>, chunk: Seq<u8>) -> ContentView {
    match f {
        Ok(c) => c,
        Err(e) => ContentView::Diagnostic(
            "Received (Err("@ + error_text(e) + ")): ["@ + byte_list(chunk) + "]\n"@,
        ),
    }
}

/// The text of an error (see `error_text`).
fn error_string(e: FrameError) -> (r: String)
    ensures
        r@ == error_text(e),
{
    match e {
        FrameError::NotEnoughSpace => "NotEnoughSpace".to_owned(),
        FrameError::BadFraming => "BadFraming".to_owned(),
        FrameError::BadFrameType(b) => {
            let mut s = "BadFrameType(".to_owned();
            string_push_str(&mut s, decimal(b as u64).as_str());
            string_push_str(&mut s, ")");
            s
        },
        FrameError::BadFcs => "BadFCS".to_owned(),
        FrameError::Abort => "Abort".to_owned(),
    }
}

/// What a frame read in `chunk` means to the shell (see `frame_meaning`).
pub fn frame_event(f: Result<FrameContent, FrameError>, chunk: &[u8]) -> (r: FrameContent)
    ensures
        r@ == frame_meaning(frame_view(f), chunk@),
{
    match f {
        Ok(c) => c,
        Err(e) => {
            let mut s = "Received (Err(".to_owned();
            string_push_str(&mut s, error_string(e).as_str());
            string_push_str(&mut s, ")): [");
            let ghost head = s@;
            assert(chunk@.take(0) =~= Seq::<u8>::empty());
            for i in 0..chunk.len()
                invariant
                    s@ == head + byte_list(chunk@.take(i as int)),
            {
                assert(chunk@.take(i + 1).drop_last() =~= chunk@.take(i as int));
                assert(chunk@.take(i + 1).last() == chunk@[i as int]);
                if i > 0 {
                    string_push_str(&mut s, ", ");
                }
                string_push_str(&mut s, decimal(chunk[i] as u64).as_str());
                assert(s@ =~= head + byte_list(chunk@.take(i + 1)));
            }
            assert(chunk@.take(chunk@.len() as int) =~= chunk@);
            string_push_str(&mut s, "]\n");
            FrameContent::Diagnostic(s)
        },
    }
}

/// The frame slipmux's `encode_buffered` makes of `content`.
pub uninterp spec fn slipmux_encoding(content: ContentView) -> Seq<u8>;

/// Frames `content` (slipmux's `encode_buffered`). A configuration frame,
/// and a diagnostic frame with some text, read back by a fresh decoder give
/// exactly that one frame: the frame starts with an end marker, then the
/// type byte, the escaped bytes (and for a configuration message its
/// checksum, which the decoder checks and drops), and an end marker.
#[verifier::external_body]
fn encode_buffered(content: FrameContent) -> (r: Vec<u8>)
    ensures
        r@ == slipmux_encoding(content@),
        content@ is Configuration || (content@ matches ContentView::Diagnostic(t) && t.len() > 0)
            ==> slipmux_frames(r@) == seq![Ok::<ContentView, FrameError>(content@)],
{
    slipmux::encode_buffered(
        match content {
            FrameContent::Diagnostic(s) => Slipmux::Diagnostic(s),
            FrameContent::Configuration(c) => Slipmux::Configuration(c),
            FrameContent::Packet(p) => Slipmux::Packet(p),
        },
    )
}

/// The diagnostic frame carrying `text`; read back from its start, a
/// frame with some text gives that text.
pub fn diagnostic_frame(text: String) -> (r: Vec<u8>)
    ensures
        r@ == slipmux_encoding(ContentView::Diagnostic(text@)),
        text@.len() > 0 ==> slipmux_frames(r@) == seq![Ok::<ContentView, FrameError>(ContentView::Diagnostic(text@))],
{
    encode_buffered(FrameContent::Diagnostic(text))
}

/// The packet frame carrying the IP packet `packet`.
pub fn packet_frame(packet: Vec<u8>) -> (r: Vec<u8>)
    ensures
        r@ == slipmux_encoding(ContentView::Packet(packet@)),
{
    encode_buffered(FrameContent::Packet(packet))
}

/// An option, as values: its number and its value.
pub open spec fn option_views(s: Seq<(u16, Vec<u8>)>) -> Seq<(u16, Seq<u8>)> {
    s.map_values(|o: (u16, Vec<u8>)| (o.0, o.1@))
}

/// What coap-lite's `Packet::to_bytes` makes of a message with the code
/// `code`, the message id `message_id`, the token `token`, the options
/// `options` added in turn and the payload `payload` (a confirmable
/// message of version 1); `None` where it refuses the message.
pub uninterp spec fn coap_packet_bytes(
    code: u8,
    message_id: u16,
    token: Seq<u8>,
    options: Seq<(u16, Seq<u8>)>,
    payload: Seq<u8>,
) -> Option<Seq<u8>>;

/// Serializes a CoAP message given by its parts (coap-lite's `Packet`: a
/// new packet takes the code, the message id, the token through
/// `set_token`, each option through `add_option`, and the payload; then
/// `Packet::to_bytes`). The token must be shorter than 16 bytes, or
/// `set_token` panics.
#[verifier::external_body]
fn packet_to_bytes(code: u8, message_id: u16, token: &[u8], options: &[(u16, Vec<u8>)], payload: &[u8]) -> (r:
    Option<Vec<u8>>)
    requires
        token@.len() < 16,
    ensures
        match coap_packet_bytes(code, message_id, token@, option_views(options@), payload@) {
            Some(b) => r matches Some(v) && v@ == b,
            None => r is None,
        },
{
    let mut p = coap_lite::Packet::new();
    p.header.code = coap_lite::MessageClass::from(code);
    p.header.message_id = message_id;
    p.set_token(token.to_vec());
    for (n, v) in options {
        p.add_option(coap_lite::CoapOption::from(*n), v.clone());
    }
    p.payload = payload.to_vec();
    p.to_bytes().ok()
}

/// The options of a request, in the order they are added: a `Uri-Path`
/// (11) for each piece of its path (as `set_path` splits it), its
/// `Uri-Query` (15), the content format CBOR (12, the number 60), and
/// `Block2` (23) asking for blocks of 512 bytes.
pub open spec fn request_options(plan: RequestView, block2: bool) -> Seq<(u16, Seq<u8>)> {
    let path: Seq<(u16, Seq<u8>)> = match path_options(plan.path) {
        Some(ps) => ps.map_values(|p: Seq<u8>| (11u16, p)),
        None => Seq::empty(),
    };
    let query: Seq<(u16, Seq<u8>)> = match plan.query {
        Some(q) => seq![(15u16, utf8(q))],
        None => Seq::empty(),
    };
    let format: Seq<(u16, Seq<u8>)> = if plan.cbor {
        seq![(12u16, seq![60u8])]
    } else {
        Seq::empty()
    };
    let block: Seq<(u16, Seq<u8>)> = if block2 {
        seq![(23u16, seq![5u8])]
    } else {
        Seq::empty()
    };
    path + query + format + block
}

/// The bytes of a configuration request: its method's code, the message
/// id (0 where none is given), the token, its options (see
/// `request_options`) and its payload, serialized by coap-lite.
pub open spec fn coap_request_bytes(plan: RequestView, message_id: Option<u16>, token: Seq<u8>, block2: bool) -> Option<
    Seq<u8>,
> {
    coap_packet_bytes(
        method_code(plan.method).0,
        match message_id {
            Some(m) => m,
            None => 0,
        },
        token,
        request_options(plan, block2),
        plan.payload,
    )
}

/// The options of a request (see `request_options`).
fn request_options_exec(request: &OutgoingRequest) -> (r: Vec<(u16, Vec<u8>)>)
    ensures
        option_views(r@) == request_options(request.plan@, request.block2),
{
    let plan = &request.plan;
    let mut r: Vec<(u16, Vec<u8>)> = Vec::new();
    match crate::app::handler::path_options_exec(plan.path.as_str()) {
        Some(pieces) => {
            let ghost ps = crate::app::handler::byte_views(pieces@);
            for i in 0..pieces.len()
                invariant
                    ps == crate::app::handler::byte_views(pieces@),
                    option_views(r@) == ps.take(i as int).map_values(|p: Seq<u8>| (11u16, p)),
            {
                let ghost before = option_views(r@);
                r.push((11u16, pieces[i].clone()));
                assert(ps[i as int] == pieces@[i as int]@);
                assert(option_views(r@) =~= before.push((11u16, ps[i as int])));
                assert(ps.take(i + 1).map_values(|p: Seq<u8>| (11u16, p)) =~= ps.take(i as int).map_values(
                    |p: Seq<u8>| (11u16, p),
                ).push((11u16, ps[i as int])));
            }
            assert(ps.take(pieces@.len() as int) =~= ps);
        },
        None => {},
    }
    let ghost path_part = option_views(r@);
    match &plan.query {
        Some(q) => {
            r.push((15u16, crate::text::utf8_bytes(q.as_str())));
        },
        None => {},
    }
    if plan.cbor {
        let mut v: Vec<u8> = Vec::new();
        v.push(60u8);
        r.push((12u16, v));
    }
    if request.block2 {
        let mut v: Vec<u8> = Vec::new();
        v.push(5u8);
        r.push((23u16, v));
    }
    proof {
        let want = request_options(request.plan@, request.block2);
        assert(option_views(r@) =~= want);
    }
    r
}

/// The configuration frame carrying a request: the request serialized by
/// coap-lite (see `coap_request_bytes`), framed by slipmux; `None` exactly
/// where coap-lite refuses the message. Read back from its start, the frame
/// gives the serialized request. The token must be shorter than 16
/// bytes.
pub fn configuration_frame(request: &OutgoingRequest) -> (r: Option<Vec<u8>>)
    requires
        request.token@.len() < 16,
    ensures
        match coap_request_bytes(request.plan@, request.message_id, request.token@, request.block2) {
            Some(b) => r matches Some(x) && x@ == slipmux_encoding(ContentView::Configuration(b))
                && slipmux_frames(x@) == seq![Ok::<ContentView, FrameError>(ContentView::Configuration(b))],
            None => r is None,
        },
{
    let code = crate::app::handler::method_number(request.plan.method);
    let mid = match request.message_id {
        Some(m) => m,
        None => 0,
    };
    let options = request_options_exec(request);
    match packet_to_bytes(code, mid, request.token.as_slice(), options.as_slice(), request.plan.payload.as_slice()) {
        Some(b) => Some(encode_buffered(FrameContent::Configuration(b))),
        None => None,
    }
}

} // verus!
