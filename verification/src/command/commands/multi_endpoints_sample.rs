//! An example command that issues several CoAP requests in a row and keeps
//! track of where it is.

use vstd::prelude::*;

use super::super::request::Method;
use super::super::request::RequestPlan;
use super::super::request::RequestView;
use super::super::Command;
use super::super::CommandKind;
use crate::text::lossy_utf8;
use crate::text::replace_char;
use crate::text::replace_char_exec;
use crate::text::string_from_utf8_lossy;

verus! {

/// Fetches `/jelly/board`, `/shell/reboot` and `/.well-known/core` in turn
/// and shows all three.
pub struct MultiEndpointSample {
    buffer: String,
    finished: bool,
    displayable: bool,
    state_machine: usize,
}

/// The state of the handler as values.
pub struct MultiEndpointView {
    pub buffer: Seq<char>,
    pub finished: bool,
    pub displayable: bool,
    pub state: nat,
}

impl View for MultiEndpointSample {
    type V = MultiEndpointView;

    closed spec fn view(&self) -> MultiEndpointView {
        MultiEndpointView {
            buffer: self.buffer@,
            finished: self.finished,
            displayable: self.displayable,
            state: self.state_machine as nat,
        }
    }
}

/// The path asked for after `state` responses.
pub open spec fn multi_endpoint_path(state: nat) -> Seq<char> {
    if state == 0 {
        "/jelly/board"@
    } else if state == 1 {
        "/shell/reboot"@
    } else {
        "/.well-known/core"@
    }
}

/// A response with `payload` to the handler at `s`: its text, with `,`
/// turned into newlines and a newline added, goes into the output; after
/// the first two responses the next end-point is asked for, after the third
/// the banner `==== Done! ====` ends the output and the handler is done.
pub open spec fn multi_endpoint_step(s: MultiEndpointView, payload: Seq<u8>) -> (Option<RequestView>, MultiEndpointView) {
    let piece = replace_char(lossy_utf8(payload), ',', '\n').push('\n');
    if s.state < 2 {
        (
            Some(RequestView { method: Method::Get, path: multi_endpoint_path(s.state + 1), query: None, cbor: false, payload: Seq::empty() }),
            MultiEndpointView { buffer: s.buffer + piece, state: s.state + 1, ..s },
        )
    } else {
        (None, MultiEndpointView { buffer: s.buffer + piece + "==== Done! ====\n"@, finished: true, displayable: true, ..s })
    }
}

/// A fresh handler: its output opened by a banner line.
pub open spec fn multi_endpoint_start() -> MultiEndpointView {
    MultiEndpointView { buffer: "==== Fetched a lot! ====\n"@, finished: false, displayable: false, state: 0 }
}

/// A GET of `path`.
pub open spec fn get_of(path: Seq<char>) -> RequestView {
    RequestView { method: Method::Get, path, query: None, cbor: false, payload: Seq::empty() }
}

/// A whole run of the handler: after the first request (GET
/// `/jelly/board`), the answers `p1`, `p2` and `p3` are followed by GETs of
/// `/shell/reboot` and `/.well-known/core` and then by nothing; the handler
/// is neither done nor showing anything before the third answer and is both
/// after it; and what it shows is the opening banner, the text of each
/// answer with its commas turned into newlines, each on lines of its own,
/// and the closing banner.
pub proof fn law_multi_endpoint_run(p1: Seq<u8>, p2: Seq<u8>, p3: Seq<u8>)
    ensures
        ({
            let (r1, s1) = multi_endpoint_step(multi_endpoint_start(), p1);
            let (r2, s2) = multi_endpoint_step(s1, p2);
            let (r3, s3) = multi_endpoint_step(s2, p3);
            let q1 = replace_char(lossy_utf8(p1), ',', '\n');
            let q2 = replace_char(lossy_utf8(p2), ',', '\n');
            let q3 = replace_char(lossy_utf8(p3), ',', '\n');
            &&& r1 == Some(get_of("/shell/reboot"@))
            &&& r2 == Some(get_of("/.well-known/core"@))
            &&& r3 is None
            &&& !s1.finished && !s1.displayable && !s2.finished && !s2.displayable
            &&& s3.finished && s3.displayable
            &&& s3.buffer.push('\n') == "==== Fetched a lot! ====\n"@ + q1 + "\n"@ + q2 + "\n"@ + q3
                + "\n==== Done! ====\n\n"@
        }),
{
    reveal_strlit("\n");
    reveal_strlit("==== Done! ====\n");
    reveal_strlit("\n==== Done! ====\n\n");
    let (r1, s1) = multi_endpoint_step(multi_endpoint_start(), p1);
    let (r2, s2) = multi_endpoint_step(s1, p2);
    let (r3, s3) = multi_endpoint_step(s2, p3);
    let q1 = replace_char(lossy_utf8(p1), ',', '\n');
    let q2 = replace_char(lossy_utf8(p2), ',', '\n');
    let q3 = replace_char(lossy_utf8(p3), ',', '\n');
    assert(s3.buffer.push('\n') =~= "==== Fetched a lot! ====\n"@ + q1 + "\n"@ + q2 + "\n"@ + q3
        + "\n==== Done! ====\n\n"@);
}

/// The command: `MultiEndpointSample`, needing the three end-points.
pub fn cmd() -> (r: Command)
    ensures
        r@.cmd == "MultiEndpointSample"@,
        r@.required_endpoints == seq!["/jelly/board"@, "/shell/reboot"@, "/.well-known/core"@],
        r@.kind == CommandKind::MultiEndpointSample,
{
    let mut eps: Vec<String> = Vec::new();
    eps.push("/jelly/board".to_owned());
    eps.push("/shell/reboot".to_owned());
    eps.push("/.well-known/core".to_owned());
    let r = Command {
        cmd: "MultiEndpointSample".to_owned(),
        description: "Query multiple endpoints at once!".to_owned(),
        required_endpoints: eps,
        kind: CommandKind::MultiEndpointSample,
    };
    assert(r@.required_endpoints =~= seq!["/jelly/board"@, "/shell/reboot"@, "/.well-known/core"@]);
    r
}

impl MultiEndpointSample {
    /// A fresh handler, its output opened by a banner line.
    pub fn parse(_cmd: &Command, _args: &str) -> (r: Self)
        ensures
            r@ == multi_endpoint_start(),
    {
        Self {
            buffer: "==== Fetched a lot! ====\n".to_owned(),
            finished: false,
            displayable: false,
            state_machine: 0,
        }
    }

    /// The first request: GET `/jelly/board`.
    pub fn init(&mut self) -> (r: RequestPlan)
        ensures
            r@ == (RequestView { method: Method::Get, path: "/jelly/board"@, query: None, cbor: false, payload: Seq::empty() }),
            final(self)@ == old(self)@,
    {
        RequestPlan::get("/jelly/board")
    }

    /// Takes a response (see `multi_endpoint_step`).
    pub fn handle(&mut self, payload: &[u8]) -> (r: Option<RequestPlan>)
        ensures
            match multi_endpoint_step(old(self)@, payload@) {
                (Some(q), n) => r matches Some(p) && p@ == q && final(self)@ == n,
                (None, n) => r is None && final(self)@ == n,
            },
    {
        let decoded = string_from_utf8_lossy(payload);
        let piece = replace_char_exec(decoded.as_str(), ',', '\n');
        self.buffer.append(piece.as_str());
        crate::text::string_push(&mut self.buffer, '\n');
        if self.state_machine == 0 {
            self.state_machine = 1;
            Some(RequestPlan::get("/shell/reboot"))
        } else if self.state_machine == 1 {
            self.state_machine = 2;
            Some(RequestPlan::get("/.well-known/core"))
        } else {
            self.buffer.append("==== Done! ====\n");
            self.finished = true;
            self.displayable = true;
            None
        }
    }

    pub fn want_display(&self) -> (r: bool)
        ensures
            r == self@.displayable,
    {
        self.displayable
    }

    pub fn is_finished(&self) -> (r: bool)
        ensures
            r == self@.finished,
    {
        self.finished
    }

    /// Writes the output and a newline into `buffer`.
    pub fn display(&self, buffer: &mut String)
        ensures
            final(buffer)@ == old(buffer)@ + self@.buffer.push('\n'),
    {
        buffer.append(self.buffer.as_str());
        crate::text::string_push(buffer, '\n');
    }
}

} // verus!
