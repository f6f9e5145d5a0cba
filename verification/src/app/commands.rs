//! The payload-level commands: each writes its request payload from its
//! arguments and turns the answer's payload into text.

use vstd::prelude::*;

use crate::cbor::cbor_array;
use crate::cbor::cbor_map;
use crate::cbor::cbor_u8;
use crate::cbor::encode_bool;
use crate::cbor::encode_head;
use crate::cbor::in_buffer;
use crate::cbor::read_array;
use crate::cbor::try_map;
use crate::cbor::try_u8;
use crate::cbor::cbor_edn_text;
use crate::cbor::cbor_to_edn;
use crate::columns::hex_list;
use crate::columns::hex_list_string;
use crate::command::commands::saul::sensor_lines;
use crate::command::commands::saul::sensor_list_at;
use crate::command::commands::saul::sensor_list_ok;
use crate::command::commands::saul::sensor_list_ok_exec;
use crate::command::commands::saul::sensor_list_text;
use crate::text::lossy_utf8;
use crate::text::replace_char;
use crate::text::replace_char_exec;
use crate::text::string_from_utf8_lossy;
use crate::text::string_push_str;

verus! {

/// The arguments of the sample command.
pub struct SampleCommand {
    /// Whether the device answers in capitals.
    pub caps: bool,
    /// How often the device repeats its answer.
    pub repeats: usize,
}

/// The sample command's answer: its text with every space turned into a
/// newline.
pub fn sample_command_display(payload: Vec<u8>) -> (r: String)
    ensures
        r@ == replace_char(lossy_utf8(payload@), ' ', '\n'),
{
    let buffer = string_from_utf8_lossy(payload.as_slice());
    replace_char_exec(buffer.as_str(), ' ', '\n')
}

/// The items of the sample request: an array of the flag and the count,
/// closed by a break byte when that still fits the four bytes.
pub open spec fn sample_items(caps: bool, repeats: u8) -> Seq<u8> {
    let front = encode_head(4, 2) + encode_bool(caps) + encode_head(0, repeats as nat);
    if front.len() < 4 {
        front.push(0xffu8)
    } else {
        front
    }
}

/// The sample request payload: its items in a zeroed 4-byte buffer.  The
/// count must fit in a byte.
pub fn sample_command_handler(cmd: &SampleCommand) -> (r: Vec<u8>)
    requires
        cmd.repeats <= 255,
    ensures
        r@ == in_buffer(sample_items(cmd.caps, cmd.repeats as u8), 4),
{
    let n = cmd.repeats as u8;
    let mut b: Vec<u8> = Vec::new();
    crate::cbor::put_array(&mut b, 2);
    crate::cbor::put_bool(&mut b, cmd.caps);
    crate::cbor::put_u8(&mut b, n);
    proof {
        crate::cbor::lemma_head_len(4, 2);
        crate::cbor::lemma_head_len(0, n as nat);
    }
    assert(b@ =~= encode_head(4, 2) + encode_bool(cmd.caps) + encode_head(0, n as nat));
    if b.len() < 4 {
        crate::cbor::put_end(&mut b);
    }
    crate::cbor::fill_buffer(b, 4)
}

/// What the user asked of the device's sensors and actuators.
pub enum SaulOperation {
    /// Read one device.
    Read { id: u8 },
    /// Write a byte into an actuator.
    Write { id: u8, data: u8 },
}

/// The arguments of `Saul`; without an operation the devices are listed.
pub struct Saul {
    pub operation: Option<SaulOperation>,
}

/// The items of a `Saul` request: an array of the operation's number (0
/// list, 1 read, 2 write) and its arguments, closed by a break byte.
pub open spec fn saul_items(op: Option<SaulOperation>) -> Seq<u8> {
    match op {
        None => encode_head(4, 1) + encode_head(0, 0) + seq![0xffu8],
        Some(SaulOperation::Read { id }) => encode_head(4, 2) + encode_head(0, 1) + encode_head(0, id as nat)
            + seq![0xffu8],
        Some(SaulOperation::Write { id, data }) => encode_head(4, 3) + encode_head(0, 2) + encode_head(
            0,
            id as nat,
        ) + encode_head(0, data as nat) + seq![0xffu8],
    }
}

/// The `Saul` request payload: its items in a zeroed 12-byte buffer.
pub fn saul_handler(cmd: &Saul) -> (r: Vec<u8>)
    ensures
        r@ == in_buffer(saul_items(cmd.operation), 12),
{
    let mut b: Vec<u8> = Vec::new();
    match &cmd.operation {
        None => {
            crate::cbor::put_array(&mut b, 1);
            crate::cbor::put_u8(&mut b, 0);
            crate::cbor::put_end(&mut b);
            assert(b@ =~= saul_items(cmd.operation));
        },
        Some(SaulOperation::Read { id }) => {
            crate::cbor::put_array(&mut b, 2);
            crate::cbor::put_u8(&mut b, 1);
            crate::cbor::put_u8(&mut b, *id);
            crate::cbor::put_end(&mut b);
            proof {
                crate::cbor::lemma_head_len(0, *id as nat);
            }
            assert(b@ =~= saul_items(cmd.operation));
        },
        Some(SaulOperation::Write { id, data }) => {
            crate::cbor::put_array(&mut b, 3);
            crate::cbor::put_u8(&mut b, 2);
            crate::cbor::put_u8(&mut b, *id);
            crate::cbor::put_u8(&mut b, *data);
            crate::cbor::put_end(&mut b);
            proof {
                crate::cbor::lemma_head_len(0, *id as nat);
                crate::cbor::lemma_head_len(0, *data as nat);
            }
            assert(b@ =~= saul_items(cmd.operation));
        },
    }
    crate::cbor::fill_buffer(b, 12)
}

/// Whether the `Saul` answer can be shown: an array, the operation's
/// number (at most 2), and, for a list, a device list whose classes all
/// have names.
pub open spec fn saul_display_accepts(b: Seq<u8>) -> bool {
    match cbor_array(b, 0) {
        Some((_, p1)) => match cbor_u8(b, p1) {
            Some((op, p2)) => op <= 2 && (op == 0 ==> sensor_list_ok(b, p2)),
            None => false,
        },
        None => false,
    }
}

/// The text for the answer to a read: the item in diagnostic notation, or
/// the parse error and the whole payload in hexadecimal.
pub open spec fn edn_display(b: Seq<u8>, edn: Result<Seq<char>, Seq<char>>) -> Seq<char> {
    match edn {
        Ok(t) => t,
        Err(e) => "Parsing error "@ + e + ", content "@ + hex_list(b) + "\n"@,
    }
}

/// What the `Saul` answer shows, given what cbor-edn makes of the payload
/// after its first two bytes: the device list, one per line; for a read
/// the device's data, or a note that there is no such device; nothing for
/// a write.
pub open spec fn saul_display_text(b: Seq<u8>, edn: Result<Seq<char>, Seq<char>>) -> Seq<char> {
    match cbor_array(b, 0) {
        Some((_, p1)) => match cbor_u8(b, p1) {
            Some((op, p2)) => if op == 0 {
                sensor_lines(sensor_list_at(b, p2)->0)
            } else if op == 1 {
                if cbor_map(b, p2) is Some {
                    edn_display(b, edn) + "\n"@
                } else {
                    "No device with this id found\n"@
                }
            } else {
                Seq::empty()
            },
            None => Seq::empty(),
        },
        None => Seq::empty(),
    }
}

/// The text of a `Saul` answer given what cbor-edn made of the payload
/// after its first two bytes (see `saul_display_text`).
pub fn saul_answer_text(payload: &[u8], edn: Result<String, String>) -> (r: String)
    requires
        saul_display_accepts(payload@),
    ensures
        r@ == saul_display_text(
            payload@,
            match edn {
                Ok(t) => Ok(t@),
                Err(e) => Err(e@),
            },
        ),
{
    let p1 = match read_array(payload, 0) {
        Some((_, p)) => p,
        None => return String::new(),
    };
    let (op, p2) = match try_u8(payload, p1) {
        (Some(v), p) => (v, p),
        (None, _) => return String::new(),
    };
    if op == 0 {
        sensor_list_text(payload, p2)
    } else if op == 1 {
        if try_map(payload, p2).0.is_some() {
            let mut out = match edn {
                Ok(t) => t,
                Err(e) => {
                    let mut m = "Parsing error ".to_owned();
                    string_push_str(&mut m, e.as_str());
                    string_push_str(&mut m, ", content ");
                    string_push_str(&mut m, hex_list_string(payload).as_str());
                    string_push_str(&mut m, "\n");
                    m
                },
            };
            string_push_str(&mut out, "\n");
            out
        } else {
            "No device with this id found\n".to_owned()
        }
    } else {
        String::new()
    }
}

/// Shows the answer to a `Saul` request (see `saul_display_text`); what
/// the answer to a read holds is put into diagnostic notation by cbor-edn.
pub fn saul_display(payload: Vec<u8>) -> (r: String)
    requires
        saul_display_accepts(payload@),
    ensures
        r@ == saul_display_text(payload@, crate::cbor::edn_of(payload@.subrange(2, payload@.len() as int))),
{
    let mut needs_edn = false;
    if let Some((_, p1)) = read_array(payload.as_slice(), 0) {
        if let (Some(op), p2) = try_u8(payload.as_slice(), p1) {
            proof {
                crate::cbor::lemma_head_advances(payload@, 0);
                crate::cbor::lemma_head_advances(payload@, p1 as int);
            }
            needs_edn = op == 1 && try_map(payload.as_slice(), p2).0.is_some();
        }
    }
    let edn = if needs_edn {
        let rest = crate::seqs::copy_range(payload.as_slice(), 2, payload.len());
        crate::cbor::edn_text(rest.as_slice())
    } else {
        Ok(String::new())
    };
    saul_answer_text(payload.as_slice(), edn)
}

} // verus!
