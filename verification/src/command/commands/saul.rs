//! Listing, reading and writing the device's SAUL sensors and actuators.

use vstd::prelude::*;

use super::super::request::Method;
use super::super::request::RequestPlan;
use super::super::request::RequestView;
use super::super::Command;
use super::super::CommandKind;
use crate::cbor::cbor_array;
use crate::cbor::cbor_map;
use crate::cbor::cbor_str;
use crate::cbor::cbor_u8;
use crate::cbor::encode_head;
use crate::cbor::in_buffer;
use crate::cbor::read_array;
use crate::cbor::read_map;
use crate::cbor::read_str;
use crate::cbor::read_u8;
use crate::command::commands::ps::prepend;
use crate::numfmt::decimal;
use crate::numfmt::digits;
use crate::text::string_push_str;

verus! {

/// The command: `Saul`, needing `/jelly/Saul`.
pub fn cmd() -> (r: Command)
    ensures
        r@.cmd == "Saul"@,
        r@.required_endpoints == seq!["/jelly/Saul"@],
        r@.kind == CommandKind::Saul,
{
    let mut eps: Vec<String> = Vec::new();
    eps.push("/jelly/Saul".to_owned());
    let r = Command {
        cmd: "Saul".to_owned(),
        description: "Saul over coap".to_owned(),
        required_endpoints: eps,
        kind: CommandKind::Saul,
    };
    assert(r@.required_endpoints =~= seq!["/jelly/Saul"@]);
    r
}

/// The name of sensor class `id` (below 29); empty past the table.
pub open spec fn sense_name(id: nat) -> Seq<char> {
    if id == 0 {
        "SAUL_SENSE_ID_ANY"@
    } else if id == 1 {
        "SAUL_SENSE_ID_BTN"@
    } else if id == 2 {
        "SAUL_SENSE_ID_TEMP"@
    } else if id == 3 {
        "SAUL_SENSE_ID_HUM"@
    } else if id == 4 {
        "SAUL_SENSE_ID_LIGHT"@
    } else if id == 5 {
        "SAUL_SENSE_ID_ACCEL"@
    } else if id == 6 {
        "SAUL_SENSE_ID_MAG"@
    } else if id == 7 {
        "SAUL_SENSE_ID_GYRO"@
    } else if id == 8 {
        "SAUL_SENSE_ID_COLOR"@
    } else if id == 9 {
        "SAUL_SENSE_ID_PRESS"@
    } else if id == 10 {
        "SAUL_SENSE_ID_ANALOG"@
    } else if id == 11 {
        "SAUL_SENSE_ID_UV"@
    } else if id == 12 {
        "SAUL_SENSE_ID_OBJTEMP"@
    } else if id == 13 {
        "SAUL_SENSE_ID_COUNT"@
    } else if id == 14 {
        "SAUL_SENSE_ID_DISTANCE"@
    } else if id == 15 {
        "SAUL_SENSE_ID_CO2"@
    } else if id == 16 {
        "SAUL_SENSE_ID_TVOC"@
    } else if id == 17 {
        "SAUL_SENSE_ID_GAS"@
    } else if id == 18 {
        "SAUL_SENSE_ID_OCCUP"@
    } else if id == 19 {
        "SAUL_SENSE_ID_PROXIMITY"@
    } else if id == 20 {
        "SAUL_SENSE_ID_RSSI"@
    } else if id == 21 {
        "SAUL_SENSE_ID_CHARGE"@
    } else if id == 22 {
        "SAUL_SENSE_ID_CURRENT"@
    } else if id == 23 {
        "SAUL_SENSE_ID_PM"@
    } else if id == 24 {
        "SAUL_SENSE_ID_CAPACITANCE"@
    } else if id == 25 {
        "SAUL_SENSE_ID_VOLTAGE"@
    } else if id == 26 {
        "SAUL_SENSE_ID_PH"@
    } else if id == 27 {
        "SAUL_SENSE_ID_POWER"@
    } else if id == 28 {
        "SAUL_SENSE_ID_SIZE"@
    } else {
        Seq::empty()
    }
}

/// The name of actuator class `id` (below 7); empty past the table.
pub open spec fn act_name(id: nat) -> Seq<char> {
    if id == 0 {
        "SAUL_ACT_ID_ANY"@
    } else if id == 1 {
        "SAUL_ACT_ID_LED_RGB"@
    } else if id == 2 {
        "SAUL_ACT_ID_SERVO"@
    } else if id == 3 {
        "SAUL_ACT_ID_MOTOR"@
    } else if id == 4 {
        "SAUL_ACT_ID_SWITCH"@
    } else if id == 5 {
        "SAUL_ACT_ID_DIMMER"@
    } else if id == 6 {
        "SAUL_ACT_NUMOF"@
    } else {
        Seq::empty()
    }
}

/// The name of a device class: its top two bits give the category
/// (undefined, actuator, sensor), the low six the class within it.  `None`
/// for the fourth category and for classes past the tables.
pub open spec fn saul_class_name(class: u8) -> Option<Seq<char>> {
    let category = class / 64;
    let id = (class % 64) as nat;
    if category == 0 {
        Some("UNDEFINED"@)
    } else if category == 1 {
        if id < 7 {
            Some(act_name(id))
        } else {
            None
        }
    } else if category == 2 {
        if id < 29 {
            Some(sense_name(id))
        } else {
            None
        }
    } else {
        None
    }
}

fn sense_name_exec(id: u8) -> (r: &'static str)
    requires
        id < 29,
    ensures
        r@ == sense_name(id as nat),
{
    match id {
        0 => "SAUL_SENSE_ID_ANY",
        1 => "SAUL_SENSE_ID_BTN",
        2 => "SAUL_SENSE_ID_TEMP",
        3 => "SAUL_SENSE_ID_HUM",
        4 => "SAUL_SENSE_ID_LIGHT",
        5 => "SAUL_SENSE_ID_ACCEL",
        6 => "SAUL_SENSE_ID_MAG",
        7 => "SAUL_SENSE_ID_GYRO",
        8 => "SAUL_SENSE_ID_COLOR",
        9 => "SAUL_SENSE_ID_PRESS",
        10 => "SAUL_SENSE_ID_ANALOG",
        11 => "SAUL_SENSE_ID_UV",
        12 => "SAUL_SENSE_ID_OBJTEMP",
        13 => "SAUL_SENSE_ID_COUNT",
        14 => "SAUL_SENSE_ID_DISTANCE",
        15 => "SAUL_SENSE_ID_CO2",
        16 => "SAUL_SENSE_ID_TVOC",
        17 => "SAUL_SENSE_ID_GAS",
        18 => "SAUL_SENSE_ID_OCCUP",
        19 => "SAUL_SENSE_ID_PROXIMITY",
        20 => "SAUL_SENSE_ID_RSSI",
        21 => "SAUL_SENSE_ID_CHARGE",
        22 => "SAUL_SENSE_ID_CURRENT",
        23 => "SAUL_SENSE_ID_PM",
        24 => "SAUL_SENSE_ID_CAPACITANCE",
        25 => "SAUL_SENSE_ID_VOLTAGE",
        26 => "SAUL_SENSE_ID_PH",
        27 => "SAUL_SENSE_ID_POWER",
        28 => "SAUL_SENSE_ID_SIZE",
        _ => "",
    }
}

fn act_name_exec(id: u8) -> (r: &'static str)
    requires
        id < 7,
    ensures
        r@ == act_name(id as nat),
{
    match id {
        0 => "SAUL_ACT_ID_ANY",
        1 => "SAUL_ACT_ID_LED_RGB",
        2 => "SAUL_ACT_ID_SERVO",
        3 => "SAUL_ACT_ID_MOTOR",
        4 => "SAUL_ACT_ID_SWITCH",
        5 => "SAUL_ACT_ID_DIMMER",
        6 => "SAUL_ACT_NUMOF",
        _ => "",
    }
}

/// The name of a device class, when it has one (see `saul_class_name`).
pub fn class_name(class: u8) -> (r: Option<&'static str>)
    ensures
        match saul_class_name(class) {
            Some(n) => r matches Some(s) && s@ == n,
            None => r is None,
        },
{
    let category = class / 64;
    let id = class % 64;
    if category == 0 {
        Some("UNDEFINED")
    } else if category == 1 {
        if id < 7 {
            Some(act_name_exec(id))
        } else {
            None
        }
    } else if category == 2 {
        if id < 29 {
            Some(sense_name_exec(id))
        } else {
            None
        }
    } else {
        None
    }
}

/// A sensor or actuator as the device lists it.
pub struct SensorEntry {
    pub id: u8,
    pub class: u8,
    pub name: String,
}

/// A listed device as a value.
pub struct SensorView {
    pub id: u8,
    pub class: u8,
    pub name: Seq<char>,
}

impl View for SensorEntry {
    type V = SensorView;

    open spec fn view(&self) -> SensorView {
        SensorView { id: self.id, class: self.class, name: self.name@ }
    }
}

/// The views of a list of devices.
pub open spec fn sensor_views(s: Seq<SensorEntry>) -> Seq<SensorView> {
    s.map_values(|e: SensorEntry| e@)
}

/// A device at `pos`: an array start, its number, its class and its name.
pub open spec fn sensor_at(b: Seq<u8>, pos: int) -> Option<(SensorView, int)> {
    match cbor_array(b, pos) {
        Some((_, p0)) => match cbor_u8(b, p0) {
            Some((id, p1)) => match cbor_u8(b, p1) {
                Some((class, p2)) => match cbor_str(b, p2) {
                    Some((name, p3)) => Some((SensorView { id, class, name }, p3)),
                    None => None,
                },
                None => None,
            },
            None => None,
        },
        None => None,
    }
}

/// The devices from `pos` on, for as long as an array starts there; `None`
/// when one of them is cut short.
pub open spec fn sensors_from(b: Seq<u8>, pos: int) -> Option<Seq<SensorView>>
    decreases b.len() - pos,
{
    if cbor_array(b, pos) is None {
        Some(Seq::empty())
    } else {
        match sensor_at(b, pos) {
            Some((e, next)) => if pos < next <= b.len() {
                prepend(seq![e], sensors_from(b, next))
            } else {
                None
            },
            None => None,
        }
    }
}

/// The device list: an array of devices starting at `pos`.
pub open spec fn sensor_list_at(b: Seq<u8>, pos: int) -> Option<Seq<SensorView>> {
    match cbor_array(b, pos) {
        Some((_, p)) => sensors_from(b, p),
        None => None,
    }
}

/// Whether every listed device has a class name.
pub open spec fn classes_known(s: Seq<SensorView>) -> bool {
    forall|i: int| 0 <= i < s.len() ==> (#[trigger] saul_class_name(s[i].class)) is Some
}

/// How a device is listed: `id, class name, name`.
pub open spec fn sensor_line(e: SensorView) -> Seq<char> {
    digits(e.id as nat, 10) + ", "@ + saul_class_name(e.class)->0 + ", "@ + e.name + "\n"@
}

/// The lines of the devices, in order.
pub open spec fn sensor_lines(s: Seq<SensorView>) -> Seq<char>
    decreases s.len(),
{
    if s.len() == 0 {
        Seq::empty()
    } else {
        sensor_lines(s.drop_last()) + sensor_line(s.last())
    }
}

/// Whether a device list starting at `pos` can be shown.
pub open spec fn sensor_list_ok(b: Seq<u8>, pos: int) -> bool {
    sensor_list_at(b, pos) matches Some(s) && classes_known(s)
}

/// Whether a device list at the start of `payload` can be shown.
pub open spec fn sensor_list_accepts(payload: Seq<u8>) -> bool {
    sensor_list_ok(payload, 0)
}

/// Reads the device at `pos`.
fn read_sensor(b: &[u8], pos: usize) -> (r: Option<(SensorEntry, usize)>)
    ensures
        match sensor_at(b@, pos as int) {
            Some((e, next)) => r matches Some((got, end)) && got@ == e && end as int == next,
            None => r is None,
        },
{
    let p0 = match read_array(b, pos) {
        Some((_, p)) => p,
        None => return None,
    };
    let (id, p1) = match read_u8(b, p0) {
        Some(x) => x,
        None => return None,
    };
    let (class, p2) = match read_u8(b, p1) {
        Some(x) => x,
        None => return None,
    };
    let (name, p3) = match read_str(b, p2) {
        Some(x) => x,
        None => return None,
    };
    Some((SensorEntry { id, class, name }, p3))
}

/// Reads the devices from `pos` on (see `sensors_from`).
fn read_sensors(b: &[u8], pos: usize) -> (r: Option<Vec<SensorEntry>>)
    ensures
        match sensors_from(b@, pos as int) {
            Some(s) => r matches Some(v) && sensor_views(v@) == s,
            None => r is None,
        },
{
    let mut out: Vec<SensorEntry> = Vec::new();
    let mut p = pos;
    if p > b.len() {
        assert(cbor_array(b@, p as int) is None);
        assert(sensor_views(out@) =~= Seq::<SensorView>::empty());
        return Some(out);
    }
    loop
        invariant
            p <= b.len(),
            sensors_from(b@, pos as int) == prepend(sensor_views(out@), sensors_from(b@, p as int)),
        decreases b.len() - p,
    {
        if read_array(b, p).is_none() {
            assert(sensor_views(out@) + Seq::<SensorView>::empty() =~= sensor_views(out@));
            return Some(out);
        }
        match read_sensor(b, p) {
            Some((e, next)) => {
                if next <= p || next > b.len() {
                    return None;
                }
                let ghost before = sensor_views(out@);
                let ghost ev = e@;
                out.push(e);
                assert(sensor_views(out@) =~= before.push(ev));
                proof {
                    match sensors_from(b@, next as int) {
                        Some(rest) => {
                            assert(before + (seq![ev] + rest) =~= before.push(ev) + rest);
                        },
                        None => {},
                    }
                }
                p = next;
            },
            None => {
                return None;
            },
        }
    }
}

/// Reads the device list starting at `pos` (see `sensor_list_at`).
pub fn read_sensor_list(b: &[u8], pos: usize) -> (r: Option<Vec<SensorEntry>>)
    ensures
        match sensor_list_at(b@, pos as int) {
            Some(s) => r matches Some(v) && sensor_views(v@) == s,
            None => r is None,
        },
{
    match read_array(b, pos) {
        Some((_, p)) => read_sensors(b, p),
        None => None,
    }
}

/// The lines of a list of devices whose classes all have names.
pub fn sensor_lines_string(list: &Vec<SensorEntry>) -> (r: String)
    requires
        classes_known(sensor_views(list@)),
    ensures
        r@ == sensor_lines(sensor_views(list@)),
{
    let ghost s = sensor_views(list@);
    let mut out = String::new();
    assert(s.take(0) =~= Seq::<SensorView>::empty());
    for i in 0..list.len()
        invariant
            s == sensor_views(list@),
            classes_known(s),
            out@ == sensor_lines(s.take(i as int)),
    {
        let e = &list[i];
        assert(s[i as int] == e@);
        assert(saul_class_name(s[i as int].class) is Some);
        let name = match class_name(e.class) {
            Some(n) => n,
            None => "",
        };
        let ghost before = out@;
        string_push_str(&mut out, decimal(e.id as u64).as_str());
        string_push_str(&mut out, ", ");
        string_push_str(&mut out, name);
        string_push_str(&mut out, ", ");
        string_push_str(&mut out, e.name.as_str());
        string_push_str(&mut out, "\n");
        assert(s.take(i + 1).drop_last() =~= s.take(i as int));
        assert(out@ =~= before + sensor_line(e@));
    }
    assert(s.take(s.len() as int) =~= s);
    out
}

/// The device list starting at `pos` as text, one device per line.
pub fn sensor_list_text(payload: &[u8], pos: usize) -> (r: String)
    requires
        sensor_list_ok(payload@, pos as int),
    ensures
        r@ == sensor_lines(sensor_list_at(payload@, pos as int)->0),
{
    match read_sensor_list(payload, pos) {
        Some(list) => sensor_lines_string(&list),
        None => String::new(),
    }
}

/// The device list in `payload` as text, one device per line.
pub fn decode_sensor_list_into_string(payload: &[u8]) -> (r: String)
    requires
        sensor_list_accepts(payload@),
    ensures
        r@ == sensor_lines(sensor_list_at(payload@, 0)->0),
{
    sensor_list_text(payload, 0)
}

/// Whether a device list that can be shown starts at `pos`.
pub fn sensor_list_ok_exec(payload: &[u8], pos: usize) -> (r: bool)
    ensures
        r == sensor_list_ok(payload@, pos as int),
{
    match read_sensor_list(payload, pos) {
        Some(list) => {
            let ghost s = sensor_views(list@);
            let mut i: usize = 0;
            while i < list.len()
                invariant
                    s == sensor_views(list@),
                    sensor_list_at(payload@, pos as int) == Some(s),
                    i <= list.len(),
                    forall|j: int| 0 <= j < i ==> (#[trigger] saul_class_name(s[j].class)) is Some,
                decreases list.len() - i,
            {
                assert(s[i as int] == list[i as int]@);
                if class_name(list[i].class).is_none() {
                    assert(saul_class_name(s[i as int].class) is None);
                    assert(!classes_known(s));
                    return false;
                }
                i = i + 1;
            }
            true
        },
        None => false,
    }
}

/// Whether `payload` holds a device list that can be shown.
pub fn accepts_sensor_list(payload: &[u8]) -> (r: bool)
    ensures
        r == sensor_list_accepts(payload@),
{
    sensor_list_ok_exec(payload, 0)
}

/// What the user asked of `Saul`.
pub enum SaulOperation {
    /// List the attached sensors and actuators (the default).
    List,
    /// Read the values of the given devices.
    Read { sensor_ids: Vec<u8> },
    /// Write an 8-bit value into an actuator.
    Write { id: u8, data: u8 },
}

/// The arguments of `Saul`.
pub struct SaulCli {
    pub operation: Option<SaulOperation>,
}

/// The array of the device numbers, each as an unsigned integer.
pub open spec fn ids_encoding(ids: Seq<u8>) -> Seq<u8>
    decreases ids.len(),
{
    if ids.len() == 0 {
        Seq::empty()
    } else {
        ids_encoding(ids.drop_last()) + encode_head(0, ids.last() as nat)
    }
}

/// Each device number takes one or two bytes.
pub proof fn lemma_ids_encoding_len(ids: Seq<u8>)
    ensures
        ids.len() <= ids_encoding(ids).len() <= 2 * ids.len(),
    decreases ids.len(),
{
    if ids.len() > 0 {
        lemma_ids_encoding_len(ids.drop_last());
        crate::cbor::lemma_head_len(0, ids.last() as nat);
    }
}

/// The bytes of a read request before they are put in the buffer.
pub open spec fn read_items(ids: Seq<u8>) -> Seq<u8> {
    encode_head(4, ids.len()) + ids_encoding(ids) + seq![0xffu8]
}

/// Whether the request for the operation fits the 12-byte buffer it is
/// written into (only a read of many devices does not).
pub open spec fn saul_request_fits(cli: SaulCli) -> bool {
    match cli.operation {
        Some(SaulOperation::Read { sensor_ids }) => read_items(sensor_ids@).len() <= 12,
        _ => true,
    }
}

/// The request for the operation, sent to `location`.
pub open spec fn saul_request(location: Seq<char>, cli: SaulCli) -> RequestView {
    match cli.operation {
        Some(SaulOperation::Read { sensor_ids }) => RequestView {
            method: Method::Get,
            path: location,
            query: None,
            cbor: true,
            payload: in_buffer(read_items(sensor_ids@), 12),
        },
        Some(SaulOperation::Write { id, data }) => RequestView {
            method: Method::Post,
            path: location,
            query: None,
            cbor: true,
            payload: in_buffer(
                encode_head(4, 2) + encode_head(0, id as nat) + encode_head(0, data as nat) + seq![0xffu8],
                12,
            ),
        },
        _ => RequestView { method: Method::Get, path: location, query: None, cbor: false, payload: Seq::empty() },
    }
}

/// The `n` unsigned 8-bit numbers read one after another from `pos`, and
/// where they end; `None` where one of them does not read.
pub open spec fn read_u8s(b: Seq<u8>, pos: int, n: nat) -> Option<(Seq<u8>, int)>
    decreases n,
{
    if n == 0 {
        Some((Seq::empty(), pos))
    } else {
        match cbor_u8(b, pos) {
            Some((x, next)) => match read_u8s(b, next, (n - 1) as nat) {
                Some((xs, end)) => Some((seq![x] + xs, end)),
                None => None,
            },
            None => None,
        }
    }
}

proof fn lemma_ids_encoding_front(ids: Seq<u8>)
    requires
        ids.len() > 0,
    ensures
        ids_encoding(ids) == encode_head(0, ids[0] as nat) + ids_encoding(ids.drop_first()),
    decreases ids.len(),
{
    if ids.len() == 1 {
        assert(ids.drop_last() =~= Seq::<u8>::empty());
        assert(ids.drop_first() =~= Seq::<u8>::empty());
        assert(ids_encoding(Seq::<u8>::empty()) == Seq::<u8>::empty());
        assert(encode_head(0, ids[0] as nat) + Seq::<u8>::empty() =~= encode_head(0, ids[0] as nat));
    } else {
        lemma_ids_encoding_front(ids.drop_last());
        assert(ids.drop_last().drop_first() =~= ids.drop_first().drop_last());
        assert(ids.drop_first().last() == ids.last());
        assert(ids.drop_last()[0] == ids[0]);
    }
}

proof fn lemma_read_ids(pre: Seq<u8>, ids: Seq<u8>, rest: Seq<u8>)
    ensures
        read_u8s(pre + ids_encoding(ids) + rest, pre.len() as int, ids.len()) == Some(
            (ids, (pre.len() + ids_encoding(ids).len()) as int),
        ),
    decreases ids.len(),
{
    let b = pre + ids_encoding(ids) + rest;
    if ids.len() == 0 {
        assert(ids =~= Seq::<u8>::empty());
    } else {
        lemma_ids_encoding_front(ids);
        let h = encode_head(0, ids[0] as nat);
        let t = ids.drop_first();
        crate::cbor::law_unsigned_roundtrip(ids[0] as nat, ids_encoding(t) + rest);
        crate::cbor::lemma_head_after(pre, h + (ids_encoding(t) + rest), 0);
        assert(b =~= pre + (h + (ids_encoding(t) + rest)));
        lemma_read_ids(pre + h, t, rest);
        assert((pre + h) + ids_encoding(t) + rest =~= b);
        assert(seq![ids[0]] + t =~= ids);
    }
}

/// A read asks the device, by a GET of a 12-byte CBOR payload, for the
/// values of the devices `ids`: the payload is an array of as many items
/// as there are ids, each id in turn, closed by a break byte (when the
/// request fits the payload).
pub proof fn law_saul_read_request(location: Seq<char>, cli: SaulCli, ids: Seq<u8>)
    requires
        cli.operation matches Some(SaulOperation::Read { sensor_ids }) && sensor_ids@ == ids,
        read_items(ids).len() <= 12,
    ensures
        ({
            let r = saul_request(location, cli);
            let p = r.payload;
            let h = encode_head(4, ids.len());
            &&& r.method == Method::Get
            &&& r.path == location
            &&& p.len() == 12
            &&& cbor_array(p, 0) == Some((Some(ids.len() as u64), h.len() as int))
            &&& read_u8s(p, h.len() as int, ids.len()) matches Some((xs, e)) && xs == ids && 0 <= e < p.len()
                && p[e] == 0xff
        }),
{
    let h = encode_head(4, ids.len());
    crate::cbor::lemma_head_len(4, ids.len());
    lemma_ids_encoding_len(ids);
    assert(ids.len() < 24);
    let w = read_items(ids);
    let p = in_buffer(w, 12);
    let zeros = Seq::new((12 - w.len()) as nat, |i: int| 0u8);
    let tail = seq![0xffu8] + zeros;
    assert(p =~= h + ids_encoding(ids) + tail);
    crate::cbor::law_head_roundtrip(4, ids.len(), ids_encoding(ids) + tail);
    assert(h + (ids_encoding(ids) + tail) =~= p);
    assert(h[0] == 4 * 32 + ids.len());
    lemma_read_ids(h, ids, tail);
    let e = h.len() + ids_encoding(ids).len();
    assert(p[e as int] == 0xff);
}

/// A write asks the device, by a POST of a 12-byte CBOR payload, to write
/// `data` into the actuator `id`: the payload is an array of two items,
/// the actuator's id first and the value second, closed by a break byte.
pub proof fn law_saul_write_request(location: Seq<char>, cli: SaulCli, id: u8, data: u8)
    requires
        cli.operation == Some(SaulOperation::Write { id, data }),
    ensures
        ({
            let r = saul_request(location, cli);
            let p = r.payload;
            &&& r.method == Method::Post
            &&& r.path == location
            &&& p.len() == 12
            &&& cbor_array(p, 0) == Some((Some(2u64), 1int))
            &&& cbor_u8(p, 1) matches Some((x, a)) && x == id && (cbor_u8(p, a) matches Some((y, e)) && y == data
                && 0 <= e < p.len() && p[e] == 0xff)
        }),
{
    let h4 = encode_head(4, 2);
    let hi = encode_head(0, id as nat);
    let hd = encode_head(0, data as nat);
    crate::cbor::lemma_head_len(4, 2);
    crate::cbor::lemma_head_len(0, id as nat);
    crate::cbor::lemma_head_len(0, data as nat);
    let w = h4 + hi + hd + seq![0xffu8];
    let p = in_buffer(w, 12);
    let zeros = Seq::new((12 - w.len()) as nat, |i: int| 0u8);
    assert(p == w + zeros);
    let tail_d = seq![0xffu8] + zeros;
    let tail_i = hd + tail_d;
    let tail_4 = hi + tail_i;
    assert(p =~= h4 + tail_4);
    crate::cbor::law_head_roundtrip(4, 2, tail_4);
    assert(h4 =~= seq![0x82u8]);
    assert(p[0] == 0x82);
    crate::cbor::law_head_roundtrip(0, id as nat, tail_i);
    crate::cbor::lemma_head_after(h4, hi + tail_i, 0);
    assert(h4 + (hi + tail_i) =~= p);
    crate::cbor::law_head_roundtrip(0, data as nat, tail_d);
    crate::cbor::lemma_head_after(h4 + hi, hd + tail_d, 0);
    assert((h4 + hi) + (hd + tail_d) =~= p);
    let e = 1 + hi.len() + hd.len();
    assert(p[e as int] == 0xff);
}

/// Lists, reads or writes the device's sensors and actuators.
pub struct Saul {
    location: String,
    buffer: String,
    payload: Vec<u8>,
    finished: bool,
    displayable: bool,
    cli: SaulCli,
}

/// The state of a `Saul` handler as values (the arguments aside).
pub struct SaulState {
    pub location: Seq<char>,
    pub buffer: Seq<char>,
    pub payload: Seq<u8>,
    pub finished: bool,
    pub displayable: bool,
}

impl View for Saul {
    type V = SaulState;

    closed spec fn view(&self) -> SaulState {
        SaulState {
            location: self.location@,
            buffer: self.buffer@,
            payload: self.payload@,
            finished: self.finished,
            displayable: self.displayable,
        }
    }
}

/// Whether the operation lists the devices.
pub open spec fn lists(cli: SaulCli) -> bool {
    cli.operation is None || cli.operation matches Some(SaulOperation::List)
}

impl Saul {
    /// The arguments the handler runs with.
    pub closed spec fn cli(&self) -> SaulCli {
        self.cli
    }

    /// A handler for the command's first end-point and the given arguments.
    pub fn parse(cmd: &Command, cli: SaulCli) -> (r: Self)
        requires
            cmd@.required_endpoints.len() > 0,
        ensures
            r@ == (SaulState {
                location: cmd@.required_endpoints[0],
                buffer: Seq::empty(),
                payload: Seq::empty(),
                finished: false,
                displayable: false,
            }),
            r.cli() == cli,
    {
        let r = Self {
            location: cmd.required_endpoints[0].clone(),
            buffer: String::new(),
            payload: Vec::new(),
            finished: false,
            displayable: false,
            cli,
        };
        assert(r@.payload =~= Seq::<u8>::empty());
        r
    }

    /// The request for the operation (see `saul_request`).
    pub fn init(&mut self) -> (r: RequestPlan)
        requires
            saul_request_fits(old(self).cli()),
        ensures
            r@ == saul_request(old(self)@.location, old(self).cli()),
            final(self)@ == old(self)@,
            final(self).cli() == old(self).cli(),
    {
        match &self.cli.operation {
            Some(SaulOperation::Read { sensor_ids }) => {
                let mut b: Vec<u8> = Vec::new();
                crate::cbor::put_array(&mut b, sensor_ids.len() as u64);
                let ghost head = b@;
                for i in 0..sensor_ids.len()
                    invariant
                        b@ == head + ids_encoding(sensor_ids@.take(i as int)),
                {
                    crate::cbor::put_u8(&mut b, sensor_ids[i]);
                    assert(sensor_ids@.take(i + 1).drop_last() =~= sensor_ids@.take(i as int));
                }
                assert(sensor_ids@.take(sensor_ids@.len() as int) =~= sensor_ids@);
                crate::cbor::put_end(&mut b);
                assert(b@ =~= read_items(sensor_ids@));
                let payload = crate::cbor::fill_buffer(b, 12);
                let path = self.location.clone();
                RequestPlan { method: Method::Get, path, query: None, cbor: true, payload }
            },
            Some(SaulOperation::Write { id, data }) => {
                let mut b: Vec<u8> = Vec::new();
                crate::cbor::put_array(&mut b, 2);
                crate::cbor::put_u8(&mut b, *id);
                crate::cbor::put_u8(&mut b, *data);
                crate::cbor::put_end(&mut b);
                assert(b@ =~= encode_head(4, 2) + encode_head(0, *id as nat) + encode_head(0, *data as nat) + seq![0xffu8]);
                proof {
                    crate::cbor::lemma_head_len(4, 2);
                    crate::cbor::lemma_head_len(0, *id as nat);
                    crate::cbor::lemma_head_len(0, *data as nat);
                }
                let payload = crate::cbor::fill_buffer(b, 12);
                let path = self.location.clone();
                RequestPlan { method: Method::Post, path, query: None, cbor: true, payload }
            },
            _ => RequestPlan::get(self.location.as_str()),
        }
    }

    /// Takes the answer.  A device list is shown one device per line; the
    /// answer to a read or a write is SenML, shown as `senml_text`, which
    /// the caller renders from it.  The answer is kept and the handler is
    /// done.
    pub fn handle(&mut self, payload: &[u8], senml_text: &str) -> (r: Option<RequestPlan>)
        requires
            lists(old(self).cli()) ==> sensor_list_accepts(payload@),
        ensures
            r is None,
            final(self).cli() == old(self).cli(),
            final(self)@ == (SaulState {
                buffer: if lists(old(self).cli()) {
                    sensor_lines(sensor_list_at(payload@, 0)->0)
                } else {
                    senml_text@
                },
                payload: payload@,
                finished: true,
                displayable: true,
                ..old(self)@
            }),
    {
        self.payload = crate::seqs::copy_bytes(payload);
        let out = match &self.cli.operation {
            Some(SaulOperation::Read { .. }) => senml_text.to_owned(),
            Some(SaulOperation::Write { .. }) => senml_text.to_owned(),
            _ => decode_sensor_list_into_string(payload),
        };
        self.buffer = out;
        self.finished = true;
        self.displayable = true;
        None
    }

    /// Whether the handler lists the devices.
    pub fn lists_devices(&self) -> (r: bool)
        ensures
            r == lists(self.cli()),
    {
        match &self.cli.operation {
            Some(SaulOperation::Read { .. }) => false,
            Some(SaulOperation::Write { .. }) => false,
            _ => true,
        }
    }

    /// Whether the request fits its buffer (see `saul_request_fits`).
    pub fn request_fits(&self) -> (r: bool)
        ensures
            r == saul_request_fits(self.cli()),
    {
        match &self.cli.operation {
            Some(SaulOperation::Read { sensor_ids }) => {
                proof {
                    lemma_ids_encoding_len(sensor_ids@);
                    crate::cbor::lemma_head_len(4, sensor_ids@.len());
                }
                if sensor_ids.len() > 10 {
                    return false;
                }
                let mut n: usize = 0;
                let mut i: usize = 0;
                while i < sensor_ids.len()
                    invariant
                        i <= sensor_ids.len() <= 10,
                        n == ids_encoding(sensor_ids@.take(i as int)).len(),
                        n <= 2 * i,
                    decreases sensor_ids.len() - i,
                {
                    proof {
                        crate::cbor::lemma_head_len(0, sensor_ids@[i as int] as nat);
                    }
                    assert(sensor_ids@.take(i + 1).drop_last() =~= sensor_ids@.take(i as int));
                    n = n + if sensor_ids[i] < 24 { 1 } else { 2 };
                    i = i + 1;
                }
                assert(sensor_ids@.take(sensor_ids@.len() as int) =~= sensor_ids@);
                n + 2 <= 12
            },
            _ => true,
        }
    }

    pub fn want_display(&self) -> (r: bool)
        ensures
            r == self@.displayable,
    {
        self.displayable
    }

    pub fn is_finished(&self) -> (r: bool)
        ensures
            r == self@.finished,
    {
        self.finished
    }

    /// Writes the kept text and a newline into `buffer`.
    pub fn display(&self, buffer: &mut String)
        ensures
            final(buffer)@ == old(buffer)@ + self@.buffer.push('\n'),
    {
        buffer.append(self.buffer.as_str());
        crate::text::string_push(buffer, '\n');
    }

    /// The answer as it came.
    pub fn export(&self) -> (r: Vec<u8>)
        ensures
            r@ == self@.payload,
    {
        self.payload.clone()
    }
}

} // verus!
