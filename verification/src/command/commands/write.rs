//! A generic PUT: a value written in CBOR diagnostic notation is sent to a
//! resource, and a failed write is reported.

use vstd::prelude::*;

use super::super::request::Method;
use super::super::request::RequestPlan;
use super::super::request::RequestView;
use super::super::Command;
use super::super::CommandKind;
use crate::datatypes::coap_log::CoapMessage;
use crate::numfmt::digits;
use crate::numfmt::pad_left;
use crate::text::string_push_str;

verus! {

/// What cbor-edn makes of the diagnostic notation `text`: the encoded
/// item (`StandaloneItem::parse`, then `to_cbor`), or, where one of the two
/// fails, whether it was the parse, with the error's text.
pub uninterp spec fn edn_encoding(text: Seq<char>) -> Result<Seq<u8>, (bool, Seq<char>)>;

/// Encodes diagnostic notation as CBOR (cbor-edn's `StandaloneItem::parse`
/// and `StandaloneItem::to_cbor`; see `edn_encoding`).  The `expect`s on
/// these paths hold by the parser's grammar and by construction; nothing
/// beyond the result is stated.
#[verifier::external_body]
fn edn_to_cbor(text: &str) -> (r: Result<Vec<u8>, (bool, String)>)
    ensures
        match edn_encoding(text@) {
            Ok(b) => r matches Ok(v) && v@ == b,
            Err((during_parse, m)) => r matches Err((p, s)) && p == during_parse && s@ == m,
        },
{
    let item = cbor_edn::StandaloneItem::parse(text).map_err(|e| (true, e.to_string()))?;
    item.to_cbor().map_err(|e| (false, e.to_string()))
}

/// Writes a value to a resource.
pub struct WriteCommand {
    path: String,
    value: Vec<u8>,
    error: Option<String>,
}

/// The command as values: the resource, the encoded value, and the report
/// of a failed write not shown yet.
pub struct WriteView {
    pub path: Seq<char>,
    pub value: Seq<u8>,
    pub error: Option<Seq<char>>,
}

impl View for WriteCommand {
    type V = WriteView;

    closed spec fn view(&self) -> WriteView {
        WriteView {
            path: self.path@,
            value: self.value@,
            error: match self.error {
                Some(e) => Some(e@),
                None => None,
            },
        }
    }
}

/// The code `c` as coap-lite's `MessageClass` shows it: the class, a dot
/// and the two-digit detail, such as `4.04`.
pub open spec fn code_text(c: u8) -> Seq<char> {
    digits((c / 32) as nat, 10) + "."@ + pad_left(digits((c % 32) as nat, 10), 2, '0')
}

/// The code byte of the status 2.04 Changed, which a write must be
/// answered with.
pub open spec fn changed() -> u8 {
    0x44
}

/// The report of a write answered with the code `c`.
pub open spec fn failure_text(c: u8) -> Seq<char> {
    "Write failed; unexpected response code "@ + code_text(c)
}

/// The code `c` as text (see `code_text`).
fn code_string(c: u8) -> (r: String)
    ensures
        r@ == code_text(c),
{
    let class = crate::numfmt::digits_exec((c / 32) as u64, 10);
    let detail = crate::numfmt::pad_left_exec(crate::numfmt::digits_exec((c % 32) as u64, 10), 2, '0');
    let mut s = crate::text::string_from_chars(class.as_slice());
    string_push_str(&mut s, ".");
    string_push_str(&mut s, crate::text::string_from_chars(detail.as_slice()).as_str());
    s
}

impl WriteCommand {
    /// The command: `write`.
    pub fn cmd() -> (r: Command)
        ensures
            r@.cmd == "write"@,
            r@.description == "Perform a PUT operation on a resource"@,
            r@.required_endpoints == seq!["/whoami"@],
            r@.kind == CommandKind::Write,
    {
        let mut eps: Vec<String> = Vec::new();
        eps.push("/whoami".to_owned());
        let r = Command {
            cmd: "write".to_owned(),
            description: "Perform a PUT operation on a resource".to_owned(),
            required_endpoints: eps,
            kind: CommandKind::Write,
        };
        assert(r@.required_endpoints =~= seq!["/whoami"@]);
        r
    }

    /// A write of the value written in diagnostic notation as `value` to
    /// `path`; the error of cbor-edn, with what failed, where the value
    /// does not encode.
    pub fn parse(path: String, value: &str) -> (r: Result<Self, String>)
        ensures
            match edn_encoding(value@) {
                Ok(b) => r matches Ok(w) && w@ == (WriteView { path: path@, value: b, error: None }),
                Err((true, m)) => r matches Err(e) && e@ == "Failed to parse CBOR EDN: "@ + m,
                Err((false, m)) => r matches Err(e) && e@ == "Failed to serialize CBOR: "@ + m,
            },
    {
        match edn_to_cbor(value) {
            Ok(v) => Ok(Self { path, value: v, error: None }),
            Err((during_parse, m)) => {
                let mut e = if during_parse {
                    "Failed to parse CBOR EDN: ".to_owned()
                } else {
                    "Failed to serialize CBOR: ".to_owned()
                };
                string_push_str(&mut e, m.as_str());
                Err(e)
            },
        }
    }

    /// The PUT of the value.
    pub fn init(&mut self) -> (r: RequestPlan)
        ensures
            r@ == (RequestView { method: Method::Put, path: old(self)@.path, query: None, cbor: false, payload: old(self)@.value }),
            final(self)@ == old(self)@,
    {
        RequestPlan { method: Method::Put, path: self.path.clone(), query: None, cbor: false, payload: self.value.clone() }
    }

    /// Takes the answer: anything but 2.04 Changed is reported as a failed
    /// write.  Nothing follows.
    pub fn handle(&mut self, response: &CoapMessage) -> (r: Option<RequestPlan>)
        ensures
            r is None,
            response@.code == changed() ==> final(self)@ == old(self)@,
            response@.code != changed() ==> final(self)@ == (WriteView { error: Some(failure_text(response@.code)), ..old(self)@ }),
    {
        if response.code != 0x44 {
            let mut e = "Write failed; unexpected response code ".to_owned();
            string_push_str(&mut e, code_string(response.code).as_str());
            self.error = Some(e);
        }
        None
    }

    /// Whether a failed write waits to be reported.
    pub fn want_display(&self) -> (r: bool)
        ensures
            r == self@.error is Some,
    {
        self.error.is_some()
    }

    /// A write is done once answered.
    pub fn is_finished(&self) -> (r: bool)
        ensures
            r,
    {
        true
    }

    /// Writes the report of the failed write, and a newline, into `buffer`;
    /// the report is then shown.
    pub fn display(&mut self, buffer: &mut String)
        requires
            old(self)@.error is Some,
        ensures
            final(buffer)@ == old(buffer)@ + old(self)@.error->0 + "\n"@,
            final(self)@ == (WriteView { error: None, ..old(self)@ }),
    {
        if let Some(e) = self.error.take() {
            string_push_str(buffer, e.as_str());
            string_push_str(buffer, "\n");
        }
    }
}

} // verus!
