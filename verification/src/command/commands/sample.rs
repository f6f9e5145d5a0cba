//! An example command: one POST with a small CBOR payload, and the answer
//! shown as text.

use vstd::prelude::*;

use super::super::request::Method;
use super::super::request::RequestPlan;
use super::super::request::RequestView;
use super::super::Command;
use crate::cbor::encode_bool;
use crate::cbor::encode_head;
use crate::cbor::in_buffer;
use crate::text::lossy_utf8;
use crate::text::replace_char;
use crate::text::replace_char_exec;
use crate::text::string_from_utf8_lossy;

verus! {

/// The arguments of the sample command.
pub struct SampleCommandCli {
    /// Whether the device answers in capitals.
    pub caps: bool,
    /// How often the device repeats its answer.
    pub repeats: usize,
}

/// Sends the arguments and shows the answer.
pub struct SampleCommand {
    location: String,
    buffer: String,
    finished: bool,
    displayable: bool,
    cli: SampleCommandCli,
}

/// The state of the handler as values.
pub struct SampleState {
    pub location: Seq<char>,
    pub buffer: Seq<char>,
    pub finished: bool,
    pub displayable: bool,
    pub caps: bool,
    pub repeats: nat,
}

impl View for SampleCommand {
    type V = SampleState;

    closed spec fn view(&self) -> SampleState {
        SampleState {
            location: self.location@,
            buffer: self.buffer@,
            finished: self.finished,
            displayable: self.displayable,
            caps: self.cli.caps,
            repeats: self.cli.repeats as nat,
        }
    }
}

/// The request payload: an array of the flag and the count, closed by a
/// break byte, in a zeroed 4-byte buffer.
pub open spec fn sample_payload(caps: bool, repeats: nat) -> Seq<u8> {
    in_buffer(encode_head(4, 2) + encode_bool(caps) + encode_head(0, repeats) + seq![0xffu8], 4)
}

impl SampleCommand {
    /// The command: `SampleCommand`, needing `/SampleCommand`.
    pub fn cmd() -> (r: Command)
        ensures
            r@.cmd == "SampleCommand"@,
            r@.required_endpoints == seq!["/SampleCommand"@],
            r@.kind == super::super::CommandKind::SampleCommand,
    {
        let mut eps: Vec<String> = Vec::new();
        eps.push("/SampleCommand".to_owned());
        let r = Command {
            cmd: "SampleCommand".to_owned(),
            description: "An example coap based command".to_owned(),
            required_endpoints: eps,
            kind: super::super::CommandKind::SampleCommand,
        };
        assert(r@.required_endpoints =~= seq!["/SampleCommand"@]);
        r
    }

    /// A handler for the command's first end-point and the given arguments.
    pub fn parse(cmd: &Command, cli: SampleCommandCli) -> (r: Self)
        requires
            cmd@.required_endpoints.len() > 0,
        ensures
            r@ == (SampleState {
                location: cmd@.required_endpoints[0],
                buffer: Seq::empty(),
                finished: false,
                displayable: false,
                caps: cli.caps,
                repeats: cli.repeats as nat,
            }),
    {
        Self {
            location: cmd.required_endpoints[0].clone(),
            buffer: String::new(),
            finished: false,
            displayable: false,
            cli,
        }
    }

    /// The POST of the arguments; the count must be below 24, so that the
    /// four items fit the buffer.
    pub fn init(&mut self) -> (r: RequestPlan)
        requires
            old(self)@.repeats < 24,
        ensures
            r@ == (RequestView {
                method: Method::Post,
                path: old(self)@.location,
                query: None,
                cbor: true,
                payload: sample_payload(old(self)@.caps, old(self)@.repeats),
            }),
            final(self)@ == old(self)@,
    {
        let n = self.cli.repeats as u8;
        let mut b: Vec<u8> = Vec::new();
        crate::cbor::put_array(&mut b, 2);
        crate::cbor::put_bool(&mut b, self.cli.caps);
        crate::cbor::put_u8(&mut b, n);
        crate::cbor::put_end(&mut b);
        assert(b@ =~= encode_head(4, 2) + encode_bool(self.cli.caps) + encode_head(0, n as nat) + seq![0xffu8]);
        let payload = crate::cbor::fill_buffer(b, 4);
        let path = self.location.clone();
        RequestPlan { method: Method::Post, path, query: None, cbor: true, payload }
    }

    /// Takes the answer: its text, with each `,` turned into a newline, is
    /// kept for display, and the handler is done.
    pub fn handle(&mut self, payload: &[u8]) -> (r: Option<RequestPlan>)
        ensures
            r is None,
            final(self)@ == (SampleState {
                buffer: replace_char(lossy_utf8(payload@), ',', '\n'),
                finished: true,
                displayable: true,
                ..old(self)@
            }),
    {
        let text = string_from_utf8_lossy(payload);
        self.buffer = replace_char_exec(text.as_str(), ',', '\n');
        self.finished = true;
        self.displayable = true;
        None
    }

    /// Whether the count fits the request's buffer.
    pub fn count_fits(&self) -> (r: bool)
        ensures
            r == (self@.repeats < 24),
    {
        self.cli.repeats < 24
    }

    pub fn want_display(&self) -> (r: bool)
        ensures
            r == self@.displayable,
    {
        self.displayable
    }

    pub fn is_finished(&self) -> (r: bool)
        ensures
            r == self@.finished,
    {
        self.finished
    }

    /// Writes the kept text and a newline into `buffer`.
    pub fn display(&self, buffer: &mut String)
        ensures
            final(buffer)@ == old(buffer)@ + self@.buffer.push('\n'),
    {
        buffer.append(self.buffer.as_str());
        crate::text::string_push(buffer, '\n');
    }
}

} // verus!
