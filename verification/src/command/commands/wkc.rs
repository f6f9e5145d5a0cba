//! A command that queries `/.well-known/core` and lists the resources.

use vstd::prelude::*;

use super::super::request::Method;
use super::super::request::RequestPlan;
use super::super::request::RequestView;
use super::super::Command;
use super::super::CommandKind;
use crate::text::lossy_utf8;
use crate::text::replace_char;
use crate::text::replace_char_exec;
use crate::text::string_from_utf8_lossy;

verus! {

/// Queries the well-known core: the response's link list, one link per
/// line.
pub struct Wkc {
    location: String,
    buffer: String,
    finished: bool,
    displayable: bool,
}

/// The state of a `Wkc` handler as values.
pub struct WkcView {
    pub location: Seq<char>,
    pub buffer: Seq<char>,
    pub finished: bool,
    pub displayable: bool,
}

impl View for Wkc {
    type V = WkcView;

    closed spec fn view(&self) -> WkcView {
        WkcView {
            location: self.location@,
            buffer: self.buffer@,
            finished: self.finished,
            displayable: self.displayable,
        }
    }
}

impl Wkc {
    /// The command: `Wkc`, needing `/.well-known/core`.
    pub fn cmd() -> (r: Command)
        ensures
            r@.cmd == "Wkc"@,
            r@.description == "Query the wkc"@,
            r@.required_endpoints == seq!["/.well-known/core"@],
            r@.kind == CommandKind::Wkc,
    {
        let mut eps: Vec<String> = Vec::new();
        eps.push("/.well-known/core".to_owned());
        let r = Command {
            cmd: "Wkc".to_owned(),
            description: "Query the wkc".to_owned(),
            required_endpoints: eps,
            kind: CommandKind::Wkc,
        };
        assert(r@.required_endpoints =~= seq!["/.well-known/core"@]);
        r
    }

    /// A handler for the command's first end-point.
    pub fn parse(cmd: &Command, _args: &str) -> (r: Self)
        requires
            cmd@.required_endpoints.len() > 0,
        ensures
            r@ == (WkcView { location: cmd@.required_endpoints[0], buffer: Seq::empty(), finished: false, displayable: false }),
    {
        let r = Self {
            location: cmd.required_endpoints[0].clone(),
            buffer: String::new(),
            finished: false,
            displayable: false,
        };
        r
    }

    /// The GET request for the end-point.
    pub fn init(&mut self) -> (r: RequestPlan)
        ensures
            r@ == (RequestView { method: Method::Get, path: old(self)@.location, query: None, cbor: false, payload: Seq::empty() }),
            final(self)@ == old(self)@,
    {
        RequestPlan::get(self.location.as_str())
    }

    /// Takes the response: its text with each `,` turned into a newline is
    /// kept for display, and the handler is done.
    pub fn handle(&mut self, payload: &[u8]) -> (r: Option<RequestPlan>)
        ensures
            r is None,
            final(self)@ == (WkcView { buffer: replace_char(lossy_utf8(payload@), ',', '\n'), finished: true, displayable: true, ..old(self)@ }),
    {
        let text = string_from_utf8_lossy(payload);
        self.buffer = replace_char_exec(text.as_str(), ',', '\n');
        self.finished = true;
        self.displayable = true;
        None
    }

    pub fn want_display(&self) -> (r: bool)
        ensures
            r == self@.displayable,
    {
        self.displayable
    }

    pub fn is_finished(&self) -> (r: bool)
        ensures
            r == self@.finished,
    {
        self.finished
    }

    /// Writes the kept text and a newline into `buffer`.
    pub fn display(&self, buffer: &mut String)
        ensures
            final(buffer)@ == old(buffer)@ + self@.buffer.push('\n'),
    {
        buffer.append(self.buffer.as_str());
        crate::text::string_push(buffer, '\n');
    }
}

} // verus!
