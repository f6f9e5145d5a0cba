//! A command that reads four buttons through SAUL and sets four LEDs to
//! match, one CBOR-encoded POST after the other.

use vstd::prelude::*;

use super::super::request::Method;
use super::super::request::RequestPlan;
use super::super::request::RequestView;
use super::super::Command;
use super::super::CommandKind;
use crate::cbor::attempt_end;
use crate::cbor::cbor_bool;
use crate::cbor::cbor_skip_end;
use crate::cbor::cbor_str;
use crate::cbor::encode_head;
use crate::cbor::in_buffer;
use crate::numfmt::digits;

verus! {

/// The arguments of the command: it takes none.
pub struct ButtonLedCli {}

/// Reads the buttons, then sets the LEDs.
pub struct ButtonLed {
    location: String,
    payload: [bool; 4],
    finished: bool,
    displayable: bool,
    state: u8,
}

/// The state of the handler as values: the end-point, the button states
/// read so far, and the step it is at (0 before the first request).
pub struct ButtonLedView {
    pub location: Seq<char>,
    pub payload: Seq<bool>,
    pub finished: bool,
    pub displayable: bool,
    pub state: u8,
}

impl View for ButtonLed {
    type V = ButtonLedView;

    closed spec fn view(&self) -> ButtonLedView {
        ButtonLedView {
            location: self.location@,
            payload: self.payload@,
            finished: self.finished,
            displayable: self.displayable,
            state: self.state,
        }
    }
}

/// The payload that asks for button `id`: the array `[1, id]` and a break
/// byte, in a zeroed 12-byte buffer.
pub open spec fn read_button_payload(id: u8) -> Seq<u8> {
    in_buffer(encode_head(4, 2) + encode_head(0, 1) + encode_head(0, id as nat) + seq![0xffu8], 12)
}

/// The payload that sets LED `id` to full strength or off: the array
/// `[2, id, 255 or 0]` and a break byte, in a zeroed 12-byte buffer.
pub open spec fn write_led_payload(id: u8, on: bool) -> Seq<u8> {
    in_buffer(
        encode_head(4, 3) + encode_head(0, 2) + encode_head(0, id as nat) + encode_head(
            0,
            if on {
                255nat
            } else {
                0nat
            },
        ) + seq![0xffu8],
        12,
    )
}

/// The POST of a CBOR `payload` to `location`.
pub open spec fn button_request(location: Seq<char>, payload: Seq<u8>) -> RequestView {
    RequestView { method: Method::Post, path: location, query: None, cbor: true, payload }
}

/// The button state in a SAUL answer: after an attempt to read the start of
/// a map, one item is skipped, a text string (the device's name) read,
/// another item skipped, and the boolean that follows is the state.
pub open spec fn button_value(b: Seq<u8>) -> Option<bool> {
    match cbor_skip_end(b, attempt_end(b, 0, 0xa0, 0xbb)) {
        Some(p1) => match cbor_str(b, p1) {
            Some((_, p2)) => match cbor_skip_end(b, p2) {
                Some(p3) => match cbor_bool(b, p3) {
                    Some((v, _)) => Some(v),
                    None => None,
                },
                None => None,
            },
            None => None,
        },
        None => None,
    }
}

/// Whether a handler at step `state` takes answers that hold a button
/// state: the answers to the four reads.
pub open spec fn reads_button(state: u8) -> bool {
    1 <= state <= 4
}

/// What the handler in state `s` makes of an answer whose button state is
/// `value`: the next request, if any, and its new state.  The answers to
/// the reads of buttons 0 to 3 are kept; after the fourth, LEDs 4 to 7 are
/// set to the states of buttons 0 to 3; then the handler is done.
pub open spec fn button_led_step(s: ButtonLedView, value: Option<bool>) -> (Option<RequestView>, ButtonLedView) {
    let st = s.state;
    let next = (st + 1) as u8;
    if 1 <= st <= 3 {
        (
            Some(button_request(s.location, read_button_payload(st))),
            ButtonLedView { payload: s.payload.update(st - 1, value->0), state: next, ..s },
        )
    } else if st == 4 {
        let p = s.payload.update(3, value->0);
        (Some(button_request(s.location, write_led_payload(4, p[0]))), ButtonLedView { payload: p, state: next, ..s })
    } else if 5 <= st <= 7 {
        (Some(button_request(s.location, write_led_payload(st, s.payload[st - 4]))), ButtonLedView { state: next, ..s })
    } else {
        (None, ButtonLedView { state: next, finished: true, displayable: true, ..s })
    }
}

/// The line that reports LED `i`.
pub open spec fn led_line(i: int, on: bool) -> Seq<char> {
    "Set LED"@ + digits(i as nat, 10) + if on {
        " to ON\n"@
    } else {
        " to OFF\n"@
    }
}

/// The lines that report the first `n` LEDs of `states`.
pub open spec fn led_lines(states: Seq<bool>, n: int) -> Seq<char>
    decreases n,
{
    if n <= 0 {
        Seq::empty()
    } else {
        led_lines(states, n - 1) + led_line(n - 1, states[n - 1])
    }
}

impl ButtonLed {
    /// The command: `Pressure`, needing `/Saul`.
    pub fn cmd() -> (r: Command)
        ensures
            r@.cmd == "Pressure"@,
            r@.description == "Set LEDs based on button presses"@,
            r@.required_endpoints == seq!["/Saul"@],
            r@.kind == CommandKind::ButtonLed,
    {
        let mut eps: Vec<String> = Vec::new();
        eps.push("/Saul".to_owned());
        let r = Command {
            cmd: "Pressure".to_owned(),
            description: "Set LEDs based on button presses".to_owned(),
            required_endpoints: eps,
            kind: CommandKind::ButtonLed,
        };
        assert(r@.required_endpoints =~= seq!["/Saul"@]);
        r
    }

    /// A handler for the command's first end-point, with all buttons off.
    pub fn parse(cmd: &Command, cli: ButtonLedCli) -> (r: Self)
        requires
            cmd@.required_endpoints.len() > 0,
        ensures
            r@ == (ButtonLedView {
                location: cmd@.required_endpoints[0],
                payload: seq![false, false, false, false],
                finished: false,
                displayable: false,
                state: 0,
            }),
    {
        let r = Self {
            location: cmd.required_endpoints[0].clone(),
            payload: [false, false, false, false],
            finished: false,
            displayable: false,
            state: 0,
        };
        assert(r.payload@ =~= seq![false, false, false, false]);
        r
    }

    /// The payload that asks for button `id`.
    fn read_button(id: u8) -> (r: Vec<u8>)
        ensures
            r@ == read_button_payload(id),
    {
        let mut b: Vec<u8> = Vec::new();
        crate::cbor::put_array(&mut b, 2);
        crate::cbor::put_u8(&mut b, 1);
        crate::cbor::put_u8(&mut b, id);
        crate::cbor::put_end(&mut b);
        proof {
            crate::cbor::lemma_head_len(0, id as nat);
        }
        assert(b@ =~= encode_head(4, 2) + encode_head(0, 1) + encode_head(0, id as nat) + seq![0xffu8]);
        crate::cbor::fill_buffer(b, 12)
    }

    /// The payload that sets LED `id` on or off.
    fn write_led(id: u8, on: bool) -> (r: Vec<u8>)
        ensures
            r@ == write_led_payload(id, on),
    {
        let value: u8 = if on {
            255
        } else {
            0
        };
        let mut b: Vec<u8> = Vec::new();
        crate::cbor::put_array(&mut b, 3);
        crate::cbor::put_u8(&mut b, 2);
        crate::cbor::put_u8(&mut b, id);
        crate::cbor::put_u8(&mut b, value);
        crate::cbor::put_end(&mut b);
        proof {
            crate::cbor::lemma_head_len(0, id as nat);
            crate::cbor::lemma_head_len(0, value as nat);
        }
        assert(b@ =~= encode_head(4, 3) + encode_head(0, 2) + encode_head(0, id as nat) + encode_head(
            0,
            if on {
                255nat
            } else {
                0nat
            },
        ) + seq![0xffu8]);
        crate::cbor::fill_buffer(b, 12)
    }

    /// The POST of `payload` to the command's end-point.
    fn coap_request(&self, payload: Vec<u8>) -> (r: RequestPlan)
        ensures
            r@ == button_request(self@.location, payload@),
    {
        RequestPlan { method: Method::Post, path: self.location.clone(), query: None, cbor: true, payload }
    }

    /// Asks for button 0 and moves to the first step.
    pub fn init(&mut self) -> (r: RequestPlan)
        requires
            old(self)@.state < 255,
        ensures
            r@ == button_request(old(self)@.location, read_button_payload(0)),
            final(self)@ == (ButtonLedView { state: (old(self)@.state + 1) as u8, ..old(self)@ }),
    {
        let cbor = Self::read_button(0);
        self.state = self.state + 1;
        self.coap_request(cbor)
    }

    /// Reads the button state out of the answer to a read.
    fn button_value_exec(payload: &[u8]) -> (r: Option<bool>)
        ensures
            r == button_value(payload@),
    {
        let (_, p0) = crate::cbor::try_map(payload, 0);
        let p1 = match crate::cbor::skip_item(payload, p0) {
            Some(p) => p,
            None => return None,
        };
        let p2 = match crate::cbor::read_str(payload, p1) {
            Some((_, p)) => p,
            None => return None,
        };
        let p3 = match crate::cbor::skip_item(payload, p2) {
            Some(p) => p,
            None => return None,
        };
        match crate::cbor::read_bool(payload, p3) {
            Some((v, _)) => Some(v),
            None => None,
        }
    }

    /// Takes an answer (see `button_led_step`).  The answers to the reads
    /// must hold a button state, and the step counter must not be at its
    /// end.
    pub fn handle(&mut self, payload: &[u8]) -> (r: Option<RequestPlan>)
        requires
            old(self)@.state < 255,
            reads_button(old(self)@.state) ==> button_value(payload@) is Some,
        ensures
            ({
                let (q, n) = button_led_step(old(self)@, button_value(payload@));
                &&& final(self)@ == n
                &&& match r {
                    Some(p) => q == Some(p@),
                    None => q is None,
                }
            }),
    {
        let st = self.state;
        let query = if 1 <= st && st <= 4 {
            let value = match Self::button_value_exec(payload) {
                Some(v) => v,
                None => false,
            };
            self.payload[(st - 1) as usize] = value;
            if st < 4 {
                let cbor = Self::read_button(st);
                Some(self.coap_request(cbor))
            } else {
                let cbor = Self::write_led(st, self.payload[0]);
                Some(self.coap_request(cbor))
            }
        } else if 5 <= st && st <= 7 {
            let cbor = Self::write_led(st, self.payload[(st - 4) as usize]);
            Some(self.coap_request(cbor))
        } else {
            None
        };
        self.state = st + 1;
        if query.is_none() {
            self.displayable = true;
            self.finished = true;
        }
        query
    }

    pub fn want_display(&self) -> (r: bool)
        ensures
            r == self@.displayable,
    {
        self.displayable
    }

    pub fn is_finished(&self) -> (r: bool)
        ensures
            r == self@.finished,
    {
        self.finished
    }

    /// Writes one line per LED, saying whether it was set on or off.
    pub fn display(&self, buffer: &mut String)
        ensures
            final(buffer)@ == old(buffer)@ + led_lines(self@.payload, 4),
    {
        let mut i: usize = 0;
        while i < 4
            invariant
                i <= 4,
                self@.payload.len() == 4,
                buffer@ == old(buffer)@ + led_lines(self@.payload, i as int),
            decreases 4 - i,
        {
            let ghost before = buffer@;
            buffer.append("Set LED");
            crate::text::string_push_str(buffer, crate::numfmt::decimal(i as u64).as_str());
            if self.payload[i] {
                buffer.append(" to ON\n");
            } else {
                buffer.append(" to OFF\n");
            }
            assert(buffer@ =~= before + led_line(i as int, self@.payload[i as int]));
            i = i + 1;
        }
    }
}

} // verus!
