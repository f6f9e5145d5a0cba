//! Running a command: what `parse` makes of a command line, and the handler
//! that carries out a CoAP command.

use vstd::prelude::*;

use super::commands::coap_get_template::CoapGet;
use super::CommandView;
use super::commands::ifconfig::ifconfig_accepts;
use super::commands::ifconfig::ifconfig_first_request;
use super::commands::ifconfig::ifconfig_step;
use super::commands::ifconfig::operation_ok;
use super::commands::ifconfig::Ifconfig;
use super::commands::ifconfig::IfconfigState;
use super::commands::ifconfig::OperationView;
use super::commands::mem::advance;
use super::commands::mem::chunk_fits;
use super::commands::mem::chunk_request;
use super::commands::mem::mem_display;
use super::commands::mem::mem_step;
use super::commands::mem::MemRead;
use super::commands::mem::MemReadView;
use super::commands::multi_endpoints_sample::multi_endpoint_step;
use super::commands::multi_endpoints_sample::MultiEndpointSample;
use super::commands::multi_endpoints_sample::MultiEndpointView;
use super::commands::ps::ps_accepts;
use super::commands::ps::ps_after;
use super::commands::ps::Ps;
use super::commands::ps::PsState;
use super::commands::sample::sample_payload;
use super::commands::sample::SampleCommand;
use super::commands::sample::SampleState;
use super::commands::saul::accepts_sensor_list;
use super::commands::saul::lists;
use super::commands::saul::saul_request;
use super::commands::saul::saul_request_fits;
use super::commands::saul::sensor_lines;
use super::commands::saul::sensor_list_accepts;
use super::commands::saul::sensor_list_at;
use super::commands::saul::Saul;
use super::commands::saul::SaulCli;
use super::commands::saul::SaulState;
use super::commands::wkc::Wkc;
use super::commands::wkc::WkcView;
use super::request::Method;
use super::request::RequestPlan;
use super::request::RequestView;
use crate::datatypes::coap_log::CoapMessage;
use crate::datatypes::coap_log::MessageView;
use crate::text::lossy_utf8;
use crate::text::replace_char;
use crate::text::utf8;
use super::Command;
use super::CommandKind;

verus! {

/// A running CoAP command.
pub enum Handler {
    CoapGet(CoapGet),
    Wkc(Wkc),
    MultiEndpointSample(MultiEndpointSample),
    MemRead(MemRead),
    Ps(Ps),
    Saul(Saul),
    SampleCommand(SampleCommand),
    Ifconfig(Ifconfig),
}

/// What Jelly does with a command line.
pub enum CommandType {
    /// A raw diagnostic text message, sent as it is.
    Text(String),
    /// A command that interacts over CoAP.
    CoAP(Handler),
    /// A Jelly internal command.
    Jelly,
}

/// A running command as a value.
pub enum HandlerView {
    CoapGet(Seq<char>),
    Wkc(WkcView),
    MultiEndpointSample(MultiEndpointView),
    MemRead(MemReadView),
    Ps(PsState),
    Saul(SaulState, SaulCli),
    SampleCommand(SampleState),
    Ifconfig(IfconfigState),
}

impl View for Handler {
    type V = HandlerView;

    open spec fn view(&self) -> HandlerView {
        match self {
            Handler::CoapGet(h) => HandlerView::CoapGet(h.location()),
            Handler::Wkc(h) => HandlerView::Wkc(h@),
            Handler::MultiEndpointSample(h) => HandlerView::MultiEndpointSample(h@),
            Handler::MemRead(h) => HandlerView::MemRead(h@),
            Handler::Ps(h) => HandlerView::Ps(h@),
            Handler::Saul(h) => HandlerView::Saul(h@, h.cli()),
            Handler::SampleCommand(h) => HandlerView::SampleCommand(h@),
            Handler::Ifconfig(h) => HandlerView::Ifconfig(h@),
        }
    }
}

/// Whether the command line of a command of this kind is read by a
/// command-line parser (outside this library) before a handler exists.
pub open spec fn needs_arguments(kind: CommandKind) -> bool {
    kind == CommandKind::MemRead || kind == CommandKind::Ps || kind == CommandKind::Saul || kind
        == CommandKind::Roto || kind == CommandKind::SampleCommand || kind == CommandKind::Ifconfig
        || kind == CommandKind::ButtonLed || kind == CommandKind::Spider || kind == CommandKind::Write
        || kind == CommandKind::IfconfigWrapper
}

/// Whether the first request can be made: a memory read must not run past
/// the address space, a SAUL read must fit its buffer, and the sample's
/// count must fit its buffer.
pub open spec fn can_start(v: HandlerView) -> bool {
    match v {
        HandlerView::MemRead(m) => chunk_fits(m),
        HandlerView::Saul(_, cli) => saul_request_fits(cli),
        HandlerView::SampleCommand(s) => s.repeats < 24,
        HandlerView::Ifconfig(s) => s.operation matches Some(op) ==> operation_ok(op) && match op {
            OperationView::Add(c) => c.addr.len() == 16,
            OperationView::Del(c) => c.addr.len() == 16,
            _ => true,
        },
        _ => true,
    }
}

/// The first request of a command in state `v`, and its state after it.
pub open spec fn first_request(v: HandlerView) -> (RequestView, HandlerView) {
    match v {
        HandlerView::CoapGet(l) => (get_request(l), v),
        HandlerView::Wkc(w) => (get_request(w.location), v),
        HandlerView::MultiEndpointSample(_) => (get_request("/jelly/board"@), v),
        HandlerView::MemRead(m) => (chunk_request(m), HandlerView::MemRead(advance(m))),
        HandlerView::Ps(p) => (get_request(p.location), v),
        HandlerView::Saul(s, cli) => (saul_request(s.location, cli), v),
        HandlerView::SampleCommand(s) => (
            RequestView { method: Method::Post, path: s.location, query: None, cbor: true, payload: sample_payload(s.caps, s.repeats) },
            v,
        ),
        HandlerView::Ifconfig(s) => (ifconfig_first_request(s), v),
    }
}

/// Whether a command in state `v` can take the answer `m`: the thread
/// table, the device list and an interface must decode, and a memory read
/// must not run past the address space.
pub open spec fn accepts(v: HandlerView, m: MessageView) -> bool {
    match v {
        HandlerView::MemRead(r) => r.size > 0 ==> chunk_fits(r),
        HandlerView::Ps(_) => ps_accepts(m.payload),
        HandlerView::Saul(_, cli) => lists(cli) ==> sensor_list_accepts(m.payload),
        HandlerView::Ifconfig(s) => ifconfig_accepts(s, m.status_is_error, m.payload),
        _ => true,
    }
}

/// What a command in state `v` makes of the answer `m`: the next request,
/// if any, and its new state.  `senml_text` is the rendering of a SAUL read
/// or write answer.
pub open spec fn step(v: HandlerView, m: MessageView, senml_text: Seq<char>) -> (Option<RequestView>, HandlerView) {
    let payload = m.payload;
    match v {
        HandlerView::CoapGet(_) => (None, v),
        HandlerView::Wkc(w) => (
            None,
            HandlerView::Wkc(WkcView { buffer: replace_char(lossy_utf8(payload), ',', '\n'), finished: true, displayable: true, ..w }),
        ),
        HandlerView::MultiEndpointSample(m) => {
            let (q, n) = multi_endpoint_step(m, payload);
            (q, HandlerView::MultiEndpointSample(n))
        },
        HandlerView::MemRead(m) => {
            let (q, n) = mem_step(m, payload);
            (q, HandlerView::MemRead(n))
        },
        HandlerView::Ps(p) => (None, HandlerView::Ps(ps_after(p, payload))),
        HandlerView::Saul(s, cli) => (
            None,
            HandlerView::Saul(
                SaulState {
                    buffer: if lists(cli) {
                        sensor_lines(sensor_list_at(payload, 0)->0)
                    } else {
                        senml_text
                    },
                    payload,
                    finished: true,
                    displayable: true,
                    ..s
                },
                cli,
            ),
        ),
        HandlerView::SampleCommand(s) => (
            None,
            HandlerView::SampleCommand(
                SampleState { buffer: replace_char(lossy_utf8(payload), ',', '\n'), finished: true, displayable: true, ..s },
            ),
        ),
        HandlerView::Ifconfig(s) => {
            let (q, n) = ifconfig_step(s, m.status_is_error, m.code_name, payload);
            (q, HandlerView::Ifconfig(n))
        },
    }
}

/// Whether the command has something to show.
pub open spec fn wants_display(v: HandlerView) -> bool {
    match v {
        HandlerView::CoapGet(_) => false,
        HandlerView::Wkc(w) => w.displayable,
        HandlerView::MultiEndpointSample(m) => m.displayable,
        HandlerView::MemRead(m) => m.displayable,
        HandlerView::Ps(p) => p.displayable,
        HandlerView::Saul(s, _) => s.displayable,
        HandlerView::SampleCommand(s) => s.displayable,
        HandlerView::Ifconfig(s) => s.displayable,
    }
}

/// Whether the command is done.
pub open spec fn finished(v: HandlerView) -> bool {
    match v {
        HandlerView::CoapGet(_) => true,
        HandlerView::Wkc(w) => w.finished,
        HandlerView::MultiEndpointSample(m) => m.finished,
        HandlerView::MemRead(m) => m.finished,
        HandlerView::Ps(p) => p.finished,
        HandlerView::Saul(s, _) => s.finished,
        HandlerView::SampleCommand(s) => s.finished,
        HandlerView::Ifconfig(s) => s.finished,
    }
}

/// What the command shows.
pub open spec fn display_text(v: HandlerView) -> Seq<char> {
    match v {
        HandlerView::CoapGet(_) => Seq::empty(),
        HandlerView::Wkc(w) => w.buffer.push('\n'),
        HandlerView::MultiEndpointSample(m) => m.buffer.push('\n'),
        HandlerView::MemRead(m) => mem_display(m),
        HandlerView::Ps(p) => p.buffer.push('\n'),
        HandlerView::Saul(s, _) => s.buffer.push('\n'),
        HandlerView::SampleCommand(s) => s.buffer.push('\n'),
        HandlerView::Ifconfig(s) => s.buffer.push('\n'),
    }
}

/// The command's result as bytes: the bytes read or the answer as it came
/// for a memory read, `Ps` and `Saul`; what it shows, in UTF-8, for the
/// others.
pub open spec fn export_bytes(v: HandlerView) -> Seq<u8> {
    match v {
        HandlerView::MemRead(m) => m.buffer,
        HandlerView::Ps(p) => p.payload,
        HandlerView::Saul(s, _) => s.payload,
        HandlerView::Ifconfig(s) => s.payload,
        _ => utf8(display_text(v)),
    }
}

/// A GET without payload.
pub open spec fn get_request(path: Seq<char>) -> RequestView {
    RequestView { method: Method::Get, path, query: None, cbor: false, payload: Seq::empty() }
}

impl Handler {
    /// The first request; called once, before anything else (see
    /// `first_request`).
    pub fn init(&mut self) -> (r: RequestPlan)
        requires
            can_start(old(self)@),
        ensures
            r@ == first_request(old(self)@).0,
            final(self)@ == first_request(old(self)@).1,
    {
        match self {
            Handler::CoapGet(h) => h.init(),
            Handler::Wkc(h) => h.init(),
            Handler::MultiEndpointSample(h) => h.init(),
            Handler::MemRead(h) => h.init(),
            Handler::Ps(h) => h.init(),
            Handler::Saul(h) => h.init(),
            Handler::SampleCommand(h) => h.init(),
            Handler::Ifconfig(h) => h.init(),
        }
    }

    /// Takes the answer to the last request; gives the next request, if
    /// any (see `step`).
    pub fn handle(&mut self, response: &CoapMessage, senml_text: &str) -> (r: Option<RequestPlan>)
        requires
            accepts(old(self)@, response@),
        ensures
            match step(old(self)@, response@, senml_text@) {
                (Some(q), n) => r matches Some(p) && p@ == q && final(self)@ == n,
                (None, n) => r is None && final(self)@ == n,
            },
    {
        let payload = response.payload.as_slice();
        match self {
            Handler::CoapGet(_) => None,
            Handler::Wkc(h) => h.handle(payload),
            Handler::MultiEndpointSample(h) => h.handle(payload),
            Handler::MemRead(h) => h.handle(payload),
            Handler::Ps(h) => h.handle(payload),
            Handler::Saul(h) => h.handle(payload, senml_text),
            Handler::SampleCommand(h) => h.handle(payload),
            Handler::Ifconfig(h) => h.handle(response.status_is_error, response.code_name.as_str(), payload),
        }
    }

    /// Whether `response` is an answer the command can take (see
    /// `accepts`).
    pub fn accepts(&self, response: &CoapMessage) -> (r: bool)
        ensures
            r == accepts(self@, response@),
    {
        let payload = response.payload.as_slice();
        match self {
            Handler::MemRead(h) => h.can_continue(),
            Handler::Ps(_) => Ps::accepts(payload),
            Handler::Saul(h) => !h.lists_devices() || accepts_sensor_list(payload),
            Handler::Ifconfig(h) => h.accepts(response.status_is_error, payload),
            _ => true,
        }
    }

    /// Whether the first request can be made (see `can_start`).
    pub fn can_start(&self) -> (r: bool)
        ensures
            r == can_start(self@),
    {
        match self {
            Handler::MemRead(h) => h.next_chunk_fits(),
            Handler::Saul(h) => h.request_fits(),
            Handler::SampleCommand(h) => h.count_fits(),
            Handler::Ifconfig(h) => h.can_start(),
            _ => true,
        }
    }

    /// Whether the command has something to show.
    pub fn want_display(&self) -> (r: bool)
        ensures
            r == wants_display(self@),
    {
        match self {
            Handler::CoapGet(_) => false,
            Handler::Wkc(h) => h.want_display(),
            Handler::MultiEndpointSample(h) => h.want_display(),
            Handler::MemRead(h) => h.want_display(),
            Handler::Ps(h) => h.want_display(),
            Handler::Saul(h) => h.want_display(),
            Handler::SampleCommand(h) => h.want_display(),
            Handler::Ifconfig(h) => h.want_display(),
        }
    }

    /// Whether the command is done.
    pub fn is_finished(&self) -> (r: bool)
        ensures
            r == finished(self@),
    {
        match self {
            Handler::CoapGet(_) => true,
            Handler::Wkc(h) => h.is_finished(),
            Handler::MultiEndpointSample(h) => h.is_finished(),
            Handler::MemRead(h) => h.is_finished(),
            Handler::Ps(h) => h.is_finished(),
            Handler::Saul(h) => h.is_finished(),
            Handler::SampleCommand(h) => h.is_finished(),
            Handler::Ifconfig(h) => h.is_finished(),
        }
    }

    /// Writes what the command shows into `buffer`.
    pub fn display(&self, buffer: &mut String)
        ensures
            final(buffer)@ == old(buffer)@ + display_text(self@),
    {
        match self {
            Handler::CoapGet(_) => {
                assert(old(buffer)@ + Seq::<char>::empty() =~= old(buffer)@);
            },
            Handler::Wkc(h) => h.display(buffer),
            Handler::MultiEndpointSample(h) => h.display(buffer),
            Handler::MemRead(h) => h.display(buffer),
            Handler::Ps(h) => h.display(buffer),
            Handler::Saul(h) => h.display(buffer),
            Handler::SampleCommand(h) => h.display(buffer),
            Handler::Ifconfig(h) => h.display(buffer),
        }
    }

    /// The command's result as bytes (see `export_bytes`).
    pub fn export(&self) -> (r: Vec<u8>)
        ensures
            r@ == export_bytes(self@),
    {
        match self {
            Handler::MemRead(h) => h.export(),
            Handler::Ps(h) => h.export(),
            Handler::Saul(h) => h.export(),
            Handler::Ifconfig(h) => h.export(),
            _ => {
                let mut buffer = String::new();
                self.display(&mut buffer);
                assert(buffer@ =~= display_text(self@));
                crate::text::utf8_bytes(buffer.as_str())
            },
        }
    }
}

/// The handler a command that needs no command-line parser starts: a GET
/// of its first end-point, the listing of its first end-point, or the
/// multi-end-point sample with its banner.
pub open spec fn handler_for(c: CommandView) -> HandlerView {
    match c.kind {
        CommandKind::CoapGet => HandlerView::CoapGet(c.required_endpoints[0]),
        CommandKind::Wkc => HandlerView::Wkc(super::commands::wkc::WkcView { location: c.required_endpoints[0], buffer: Seq::empty(), finished: false, displayable: false }),
        _ => HandlerView::MultiEndpointSample(MultiEndpointView { buffer: "==== Fetched a lot! ====\n"@, finished: false, displayable: false, state: 0 }),
    }
}

impl Command {
    /// Whether the command line is read by a command-line parser before a
    /// handler exists (see `needs_arguments`).
    pub fn needs_arguments(&self) -> (r: bool)
        ensures
            r == needs_arguments(self@.kind),
    {
        match self.kind {
            CommandKind::MemRead | CommandKind::Ps | CommandKind::Saul | CommandKind::Roto | CommandKind::SampleCommand | CommandKind::Ifconfig
            | CommandKind::ButtonLed | CommandKind::Spider | CommandKind::Write
            | CommandKind::IfconfigWrapper => true,
            _ => false,
        }
    }

    /// Reads a command line for this command.  Text commands send their
    /// name; Jelly commands are Jelly's; the others start a handler for the
    /// command's first end-point.
    pub fn parse(&self, args: &str) -> (r: Result<CommandType, String>)
        requires
            !needs_arguments(self@.kind),
            self@.kind == CommandKind::CoapGet || self@.kind == CommandKind::Wkc ==> self@.required_endpoints.len() > 0,
        ensures
            r is Ok,
            self@.kind == CommandKind::Text ==> (r->Ok_0 matches CommandType::Text(t) && t@ == self@.cmd),
            self@.kind == CommandKind::Jelly ==> (r->Ok_0 matches CommandType::Jelly),
            self@.kind != CommandKind::Text && self@.kind != CommandKind::Jelly ==> (r->Ok_0 matches CommandType::CoAP(h) && h@ == handler_for(self@)),
    {
        match self.kind {
            CommandKind::Text => Ok(CommandType::Text(self.cmd.clone())),
            CommandKind::Jelly => Ok(CommandType::Jelly),
            CommandKind::CoapGet => Ok(CommandType::CoAP(Handler::CoapGet(CoapGet::parse(self, args)))),
            CommandKind::Wkc => Ok(CommandType::CoAP(Handler::Wkc(Wkc::parse(self, args)))),
            _ => Ok(CommandType::CoAP(Handler::MultiEndpointSample(MultiEndpointSample::parse(self, args)))),
        }
    }
}

} // verus!
