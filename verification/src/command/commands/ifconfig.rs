//! `ifconfig` over CoAP: the device describes its network interfaces in
//! CBOR, keyed by small tag numbers; they are read and shown as text.

use vstd::prelude::*;

use crate::cbor::attempt_end;
use crate::cbor::cbor_array;
use crate::cbor::cbor_bool;
use crate::cbor::cbor_bytes;
use crate::cbor::cbor_i16;
use crate::cbor::cbor_map;
use crate::cbor::cbor_skip_end;
use crate::cbor::cbor_str;
use crate::cbor::cbor_tag;
use crate::cbor::cbor_u16;
use crate::cbor::cbor_u32;
use crate::cbor::cbor_u64;
use crate::cbor::cbor_u8;
use crate::cbor::encode_bool;
use crate::cbor::encode_head;
use crate::cbor::is_break;
use crate::command::request::Method;
use crate::command::request::RequestPlan;
use crate::command::request::RequestView;
use crate::command::Command;
use crate::command::CommandKind;
use crate::columns::hex_lower;
use crate::datatypes::job_log::hex2;
use crate::numfmt::decimal;
use crate::numfmt::digits;
use crate::text::string_push_str;

verus! {

/// The tag of an interface's name.
pub const TAG_NETIF_NAME: u64 = 0;

/// The tag of an interface's long (EUI-64) address.
pub const TAG_NETOPT_ADDRESS_LONG: u64 = 2;

/// The CBOR tag of a MAC address.
pub const TAG_IEEE_MAC: u64 = 48;

/// The CBOR tag of an IPv6 address (RFC 9164).
pub const TAG_IPV6: u64 = 54;

/// The tag of the link state.
pub const TAG_NETOPT_LINK: u64 = 12;

/// The tag of the network identifier.
pub const TAG_NETOPT_NID: u64 = 9;

/// An EUI-64 hardware address: up to eight bytes.
pub struct Eui64 {
    data: Vec<u8>,
}

impl View for Eui64 {
    type V = Seq<u8>;

    closed spec fn view(&self) -> Seq<u8> {
        self.data@
    }
}

/// The address made of `data`: empty when `data` is longer than eight
/// bytes.
pub open spec fn eui64_of(data: Seq<u8>) -> Seq<u8> {
    if data.len() > 8 {
        Seq::empty()
    } else {
        data
    }
}

impl Eui64 {
    /// The address made of `data` (see `eui64_of`).
    pub fn new(data: &[u8]) -> (r: Self)
        ensures
            r@ == eui64_of(data@),
    {
        if data.len() > 8 {
            Self { data: Vec::new() }
        } else {
            Self { data: crate::seqs::copy_bytes(data) }
        }
    }
}

/// An IPv6 address and its prefix length.
pub struct Ipv6AddrCidr {
    /// The sixteen bytes of the address.
    pub addr: Vec<u8>,
    pub prefix: u8,
}

/// An address and prefix length as a value.
pub struct CidrView {
    pub addr: Seq<u8>,
    pub prefix: u8,
}

impl View for Ipv6AddrCidr {
    type V = CidrView;

    open spec fn view(&self) -> CidrView {
        CidrView { addr: self.addr@, prefix: self.prefix }
    }
}

/// Whether an IPv6 address is unicast with link-local scope (`fe80::/10`,
/// std's `Ipv6Addr::is_unicast_link_local`).
pub open spec fn is_link_local(a: Seq<u8>) -> bool {
    a[0] == 0xfe && a[1] / 64 == 2
}

/// Whether an IPv6 address is a multicast address (`ff00::/8`, std's
/// `Ipv6Addr::is_multicast`).
pub open spec fn is_multicast(a: Seq<u8>) -> bool {
    a[0] == 0xff
}

/// An address at `pos` (RFC 9164): a sixteen-byte string, whose prefix
/// length is 64 for a link-local address and 128 otherwise; or an array of
/// the string and an optional prefix length (128 when missing), or of the
/// prefix length and the string.  `None` where the form is another or the
/// string is not sixteen bytes long.
pub open spec fn cidr_at(b: Seq<u8>, pos: int) -> Option<(CidrView, int)> {
    match cbor_bytes(b, pos) {
        Some((d, p1)) => if d.len() == 16 {
            Some((CidrView { addr: d, prefix: if is_link_local(d) { 64 } else { 128 } }, p1))
        } else {
            None
        },
        None => match cbor_array(b, pos) {
            Some((_, p1)) => match cbor_bytes(b, p1) {
                Some((d, p2)) => if d.len() == 16 {
                    match cbor_u8(b, p2) {
                        Some((v, p3)) => Some((CidrView { addr: d, prefix: v }, p3)),
                        None => Some((CidrView { addr: d, prefix: 128 }, attempt_end(b, p2, 0, 0x1b))),
                    }
                } else {
                    None
                },
                None => match cbor_u8(b, p1) {
                    Some((v, p2)) => match cbor_bytes(b, p2) {
                        Some((d, p3)) => if d.len() == 16 {
                            Some((CidrView { addr: d, prefix: v }, p3))
                        } else {
                            None
                        },
                        None => None,
                    },
                    None => None,
                },
            },
            None => None,
        },
    }
}

/// The addresses from `pos` on, each after the IPv6 tag, appended to
/// `acc`, for as long as that tag comes.
pub open spec fn cidr_list(b: Seq<u8>, pos: int, acc: Seq<CidrView>) -> Option<(Seq<CidrView>, int)>
    decreases b.len() - pos,
{
    match cbor_tag(b, pos) {
        Some((t, p1)) => if t == TAG_IPV6 {
            match cidr_at(b, p1) {
                Some((c, p2)) => if pos < p2 <= b.len() {
                    cidr_list(b, p2, acc.push(c))
                } else {
                    None
                },
                None => None,
            }
        } else {
            Some((acc, pos))
        },
        None => Some((acc, pos)),
    }
}

/// Reads the sixteen-byte string at `pos`, if it is one.
fn read_addr(b: &[u8], pos: usize) -> (r: Option<(Vec<u8>, usize)>)
    ensures
        match cbor_bytes(b@, pos as int) {
            Some((d, next)) => if d.len() == 16 {
                r matches Some((got, end)) && got@ == d && end as int == next
            } else {
                r is None
            },
            None => r is None,
        },
{
    match crate::cbor::read_bytes(b, pos) {
        Some((d, next)) => if d.len() == 16 {
            Some((d, next))
        } else {
            None
        },
        None => None,
    }
}

impl Ipv6AddrCidr {
    /// Reads an address at `pos` (see `cidr_at`).
    pub fn from_cbor(b: &[u8], pos: usize) -> (r: Option<(Self, usize)>)
        ensures
            match cidr_at(b@, pos as int) {
                Some((c, next)) => r matches Some((got, end)) && got@ == c && end as int == next,
                None => r is None,
            },
    {
        if crate::cbor::read_bytes(b, pos).is_some() {
            match read_addr(b, pos) {
                Some((d, p1)) => {
                    let link_local = d[0] == 0xfe && d[1] / 64 == 2;
                    let prefix: u8 = if link_local { 64 } else { 128 };
                    return Some((Self { addr: d, prefix }, p1));
                },
                None => return None,
            }
        }
        let p1 = match crate::cbor::read_array(b, pos) {
            Some((_, p)) => p,
            None => return None,
        };
        if crate::cbor::read_bytes(b, p1).is_some() {
            match read_addr(b, p1) {
                Some((d, p2)) => {
                    let (v, p3) = crate::cbor::try_u8(b, p2);
                    let prefix = match v {
                        Some(x) => x,
                        None => 128,
                    };
                    Some((Self { addr: d, prefix }, p3))
                },
                None => None,
            }
        } else {
            match crate::cbor::try_u8(b, p1) {
                (Some(v), p2) => match read_addr(b, p2) {
                    Some((d, p3)) => Some((Self { addr: d, prefix: v }, p3)),
                    None => None,
                },
                (None, _) => None,
            }
        }
    }
}

/// The views of a list of addresses.
pub open spec fn cidr_views(s: Seq<Ipv6AddrCidr>) -> Seq<CidrView> {
    s.map_values(|c: Ipv6AddrCidr| c@)
}

/// Reads the tagged addresses from `pos` on onto `acc` (see `cidr_list`).
fn read_cidr_list(b: &[u8], pos: usize, acc: Vec<Ipv6AddrCidr>) -> (r: Option<(Vec<Ipv6AddrCidr>, usize)>)
    ensures
        match cidr_list(b@, pos as int, cidr_views(acc@)) {
            Some((l, next)) => r matches Some((got, end)) && cidr_views(got@) == l && end as int == next,
            None => r is None,
        },
{
    let mut out = acc;
    let mut p = pos;
    if p > b.len() {
        return Some((out, p));
    }
    loop
        invariant
            p <= b.len(),
            cidr_list(b@, pos as int, cidr_views(acc@)) == cidr_list(b@, p as int, cidr_views(out@)),
        decreases b.len() - p,
    {
        let (t, p1) = crate::cbor::try_tag(b, p);
        match t {
            Some(tag) => {
                if tag != TAG_IPV6 {
                    return Some((out, p));
                }
                match Ipv6AddrCidr::from_cbor(b, p1) {
                    Some((c, p2)) => {
                        if p2 <= p || p2 > b.len() {
                            return None;
                        }
                        let ghost before = cidr_views(out@);
                        let ghost cv = c@;
                        out.push(c);
                        assert(cidr_views(out@) =~= before.push(cv));
                        p = p2;
                    },
                    None => return None,
                }
            },
            None => return Some((out, p)),
        }
    }
}

/// The LoRa settings of an interface.
#[derive(Clone, Copy, PartialEq, Eq, Structural, Debug)]
pub struct Lora {
    pub bandwidth: Option<u8>,
    pub spreading_factor: Option<u8>,
    pub coding_rate: Option<u8>,
    pub demod_margin: Option<u8>,
    pub num_gateways: Option<u8>,
}

/// The IEEE 802.15.4 settings of an interface.
#[derive(Clone, Copy, PartialEq, Eq, Structural, Debug)]
pub struct Ieee802154 {
    pub phy: Option<u32>,
    pub oqpsk_rate: Option<u32>,
    pub mr_oqpsk_chips: Option<u32>,
    pub mr_oqpsk_rate: Option<u32>,
    pub mr_ofdm_option: Option<u32>,
    pub mr_ofdm_mcs: Option<u32>,
    pub mr_fsk_modulation_index: Option<u32>,
    pub mr_fsk_modulation_order: Option<u32>,
    pub mr_fsk_srate: Option<u32>,
    pub mr_fsk_fec: Option<u32>,
    pub channel_spacing: Option<u32>,
}

/// The flags of an interface.
#[derive(Clone, Copy, PartialEq, Eq, Structural, Debug)]
pub struct NetifFlags {
    pub promisc: Option<bool>,
    pub autoack: Option<bool>,
    pub ack_req: Option<bool>,
    pub preload: Option<bool>,
    pub rawmode: Option<bool>,
    pub mac_no_sleep: Option<bool>,
    pub csma: Option<bool>,
    pub autocca: Option<bool>,
    pub iq_invert: Option<bool>,
    pub rx_single: Option<bool>,
    pub chan_hop: Option<bool>,
    pub otaa: Option<bool>,
    pub rtr: Option<bool>,
    pub rtr_adv: Option<bool>,
    pub sixlo: Option<bool>,
    pub abr: Option<bool>,
    pub iphc: Option<bool>,
}

impl Lora {
    /// No setting known.
    pub open spec fn empty() -> Self {
        Lora { bandwidth: None, spreading_factor: None, coding_rate: None, demod_margin: None, num_gateways: None }
    }
}

impl Ieee802154 {
    /// No setting known.
    pub open spec fn empty() -> Self {
        Ieee802154 { phy: None, oqpsk_rate: None, mr_oqpsk_chips: None, mr_oqpsk_rate: None, mr_ofdm_option: None, mr_ofdm_mcs: None, mr_fsk_modulation_index: None, mr_fsk_modulation_order: None, mr_fsk_srate: None, mr_fsk_fec: None, channel_spacing: None }
    }
}

impl NetifFlags {
    /// No flag known.
    pub open spec fn empty() -> Self {
        NetifFlags { promisc: None, autoack: None, ack_req: None, preload: None, rawmode: None, mac_no_sleep: None, csma: None, autocca: None, iq_invert: None, rx_single: None, chan_hop: None, otaa: None, rtr: None, rtr_adv: None, sixlo: None, abr: None, iphc: None }
    }
}

/// `s` with the field for `tag` set to `v`; other tags change nothing.
pub open spec fn lora_set(s: Lora, tag: u64, v: u8) -> Lora {
    if tag == 0 {
        Lora { bandwidth: Some(v), ..s }
    } else if tag == 1 {
        Lora { spreading_factor: Some(v), ..s }
    } else if tag == 2 {
        Lora { coding_rate: Some(v), ..s }
    } else if tag == 3 {
        Lora { demod_margin: Some(v), ..s }
    } else if tag == 4 {
        Lora { num_gateways: Some(v), ..s }
    } else {
        s
    }
}

/// `s` with the field for `tag` set to `v`; other tags change nothing.
pub open spec fn ieee_set(s: Ieee802154, tag: u64, v: u32) -> Ieee802154 {
    if tag == 0 {
        Ieee802154 { phy: Some(v), ..s }
    } else if tag == 1 {
        Ieee802154 { oqpsk_rate: Some(v), ..s }
    } else if tag == 2 {
        Ieee802154 { mr_oqpsk_chips: Some(v), ..s }
    } else if tag == 3 {
        Ieee802154 { mr_oqpsk_rate: Some(v), ..s }
    } else if tag == 4 {
        Ieee802154 { mr_ofdm_option: Some(v), ..s }
    } else if tag == 5 {
        Ieee802154 { mr_ofdm_mcs: Some(v), ..s }
    } else if tag == 6 {
        Ieee802154 { mr_fsk_modulation_index: Some(v), ..s }
    } else if tag == 7 {
        Ieee802154 { mr_fsk_modulation_order: Some(v), ..s }
    } else if tag == 8 {
        Ieee802154 { mr_fsk_srate: Some(v), ..s }
    } else if tag == 9 {
        Ieee802154 { mr_fsk_fec: Some(v), ..s }
    } else if tag == 10 {
        Ieee802154 { channel_spacing: Some(v), ..s }
    } else {
        s
    }
}

/// `s` with the field for `tag` set to `v`; other tags change nothing.
pub open spec fn flags_set(s: NetifFlags, tag: u64, v: bool) -> NetifFlags {
    if tag == 0 {
        NetifFlags { promisc: Some(v), ..s }
    } else if tag == 1 {
        NetifFlags { autoack: Some(v), ..s }
    } else if tag == 2 {
        NetifFlags { ack_req: Some(v), ..s }
    } else if tag == 3 {
        NetifFlags { preload: Some(v), ..s }
    } else if tag == 4 {
        NetifFlags { rawmode: Some(v), ..s }
    } else if tag == 5 {
        NetifFlags { mac_no_sleep: Some(v), ..s }
    } else if tag == 6 {
        NetifFlags { csma: Some(v), ..s }
    } else if tag == 7 {
        NetifFlags { autocca: Some(v), ..s }
    } else if tag == 8 {
        NetifFlags { iq_invert: Some(v), ..s }
    } else if tag == 9 {
        NetifFlags { rx_single: Some(v), ..s }
    } else if tag == 10 {
        NetifFlags { chan_hop: Some(v), ..s }
    } else if tag == 11 {
        NetifFlags { otaa: Some(v), ..s }
    } else if tag == 12 {
        NetifFlags { rtr: Some(v), ..s }
    } else if tag == 13 {
        NetifFlags { rtr_adv: Some(v), ..s }
    } else if tag == 14 {
        NetifFlags { sixlo: Some(v), ..s }
    } else if tag == 15 {
        NetifFlags { abr: Some(v), ..s }
    } else if tag == 16 {
        NetifFlags { iphc: Some(v), ..s }
    } else {
        s
    }
}

fn lora_set_exec(s: &mut Lora, tag: u64, v: u8)
    ensures
        *final(s) == lora_set(*old(s), tag, v),
{
    match tag {
        0 => s.bandwidth = Some(v),
        1 => s.spreading_factor = Some(v),
        2 => s.coding_rate = Some(v),
        3 => s.demod_margin = Some(v),
        4 => s.num_gateways = Some(v),
        _ => {},
    }
}

pub(crate) fn ieee_set_exec(s: &mut Ieee802154, tag: u64, v: u32)
    ensures
        *final(s) == ieee_set(*old(s), tag, v),
{
    match tag {
        0 => s.phy = Some(v),
        1 => s.oqpsk_rate = Some(v),
        2 => s.mr_oqpsk_chips = Some(v),
        3 => s.mr_oqpsk_rate = Some(v),
        4 => s.mr_ofdm_option = Some(v),
        5 => s.mr_ofdm_mcs = Some(v),
        6 => s.mr_fsk_modulation_index = Some(v),
        7 => s.mr_fsk_modulation_order = Some(v),
        8 => s.mr_fsk_srate = Some(v),
        9 => s.mr_fsk_fec = Some(v),
        10 => s.channel_spacing = Some(v),
        _ => {},
    }
}

pub(crate) fn flags_set_exec(s: &mut NetifFlags, tag: u64, v: bool)
    ensures
        *final(s) == flags_set(*old(s), tag, v),
{
    match tag {
        0 => s.promisc = Some(v),
        1 => s.autoack = Some(v),
        2 => s.ack_req = Some(v),
        3 => s.preload = Some(v),
        4 => s.rawmode = Some(v),
        5 => s.mac_no_sleep = Some(v),
        6 => s.csma = Some(v),
        7 => s.autocca = Some(v),
        8 => s.iq_invert = Some(v),
        9 => s.rx_single = Some(v),
        10 => s.chan_hop = Some(v),
        11 => s.otaa = Some(v),
        12 => s.rtr = Some(v),
        13 => s.rtr_adv = Some(v),
        14 => s.sixlo = Some(v),
        15 => s.abr = Some(v),
        16 => s.iphc = Some(v),
        _ => {},
    }
}

/// The LoRa settings from `pos` on: each a tag number and, for the five
/// known tags, a byte-sized number; any other item after a tag is skipped.
/// `None` when an item cannot be read.
pub open spec fn lora_entries(b: Seq<u8>, pos: int, l: Lora) -> Option<(Lora, int)>
    decreases b.len() - pos,
{
    match cbor_u64(b, pos) {
        None => Some((l, pos)),
        Some((tag, p1)) => if tag < 5 {
            match cbor_u8(b, p1) {
                Some((v, p2)) => if pos < p2 <= b.len() {
                    lora_entries(b, p2, lora_set(l, tag, v))
                } else {
                    None
                },
                None => None,
            }
        } else {
            match cbor_skip_end(b, p1) {
                Some(p2) => if pos < p2 <= b.len() {
                    lora_entries(b, p2, l)
                } else {
                    None
                },
                None => None,
            }
        },
    }
}

/// The LoRa settings at `pos`: an array of entries, after which one more
/// item (its end) is skipped; none when no array starts there.
pub open spec fn lora_at(b: Seq<u8>, pos: int) -> Option<(Lora, int)> {
    match cbor_array(b, pos) {
        None => Some((Lora::empty(), pos)),
        Some((_, p1)) => match lora_entries(b, p1, Lora::empty()) {
            Some((l, p2)) => match cbor_skip_end(b, p2) {
                Some(p3) => Some((l, p3)),
                None => None,
            },
            None => None,
        },
    }
}

/// The IEEE 802.15.4 settings from `pos` on: each a tag number and, for the
/// eleven known tags, a 32-bit number; any other item after a tag is
/// skipped.
pub open spec fn ieee_entries(b: Seq<u8>, pos: int, s: Ieee802154) -> Option<(Ieee802154, int)>
    decreases b.len() - pos,
{
    match cbor_u64(b, pos) {
        None => Some((s, pos)),
        Some((tag, p1)) => if tag < 11 {
            match cbor_u32(b, p1) {
                Some((v, p2)) => if pos < p2 <= b.len() {
                    ieee_entries(b, p2, ieee_set(s, tag, v))
                } else {
                    None
                },
                None => None,
            }
        } else {
            match cbor_skip_end(b, p1) {
                Some(p2) => if pos < p2 <= b.len() {
                    ieee_entries(b, p2, s)
                } else {
                    None
                },
                None => None,
            }
        },
    }
}

/// The IEEE 802.15.4 settings at `pos`: a map of entries, after which one
/// more item (its end) is skipped; none when no map starts there.
pub open spec fn ieee_at(b: Seq<u8>, pos: int) -> Option<(Ieee802154, int)> {
    match cbor_map(b, pos) {
        None => Some((Ieee802154::empty(), pos)),
        Some((_, p1)) => match ieee_entries(b, p1, Ieee802154::empty()) {
            Some((s, p2)) => match cbor_skip_end(b, p2) {
                Some(p3) => Some((s, p3)),
                None => None,
            },
            None => None,
        },
    }
}

/// The flags from `pos` on: each a tag number and a boolean; unknown tags
/// are read and ignored.
pub open spec fn flag_entries(b: Seq<u8>, pos: int, f: NetifFlags) -> Option<(NetifFlags, int)>
    decreases b.len() - pos,
{
    match cbor_u64(b, pos) {
        None => Some((f, pos)),
        Some((tag, p1)) => match cbor_bool(b, p1) {
            Some((v, p2)) => if pos < p2 <= b.len() {
                flag_entries(b, p2, flags_set(f, tag, v))
            } else {
                None
            },
            None => None,
        },
    }
}

/// The flags at `pos` set onto `f`: an array of entries, closed by a break
/// byte if one follows; `f` unchanged when no array starts there.
pub open spec fn flags_at(b: Seq<u8>, pos: int, f: NetifFlags) -> Option<(NetifFlags, int)> {
    match cbor_array(b, pos) {
        None => Some((f, pos)),
        Some((_, p1)) => match flag_entries(b, p1, f) {
            Some((g, p2)) => if is_break(b, p2) {
                Some((g, p2 + 1))
            } else {
                Some((g, p2))
            },
            None => None,
        },
    }
}

/// Reads the LoRa settings at `pos` (see `lora_at`).
pub fn lora_from_cbor(b: &[u8], pos: usize) -> (r: Option<(Lora, usize)>)
    ensures
        match lora_at(b@, pos as int) {
            Some((l, next)) => r matches Some((got, end)) && got == l && end as int == next,
            None => r is None,
        },
{
    let mut l = Lora { bandwidth: None, spreading_factor: None, coding_rate: None, demod_margin: None, num_gateways: None };
    let p1 = match crate::cbor::read_array(b, pos) {
        Some((_, p)) => p,
        None => return Some((l, pos)),
    };
    let mut p = p1;
    loop
        invariant
            p1 <= p <= b.len(),
            lora_entries(b@, p1 as int, Lora::empty()) == lora_entries(b@, p as int, l),
            lora_at(b@, pos as int) == match lora_entries(b@, p1 as int, Lora::empty()) {
                Some((l2, p2)) => match cbor_skip_end(b@, p2) {
                    Some(p3) => Some((l2, p3)),
                    None => None,
                },
                None => None,
            },
        ensures
            p1 <= p <= b.len(),
            cbor_u64(b@, p as int) is None,
        decreases b.len() - p,
    {
        let (tag, q1) = match crate::cbor::read_u64(b, p) {
            Some(x) => x,
            None => break,
        };
        if tag < 5 {
            match crate::cbor::try_u8(b, q1) {
                (Some(v), q2) => {
                    if q2 <= p || q2 > b.len() {
                        return None;
                    }
                    lora_set_exec(&mut l, tag, v);
                    p = q2;
                },
                (None, _) => return None,
            }
        } else {
            match crate::cbor::skip_item(b, q1) {
                Some(q2) => {
                    if q2 <= p || q2 > b.len() {
                        return None;
                    }
                    p = q2;
                },
                None => return None,
            }
        }
    }
    match crate::cbor::skip_item(b, p) {
        Some(p3) => Some((l, p3)),
        None => None,
    }
}

/// Reads the IEEE 802.15.4 settings at `pos` (see `ieee_at`).
pub fn ieee_from_cbor(b: &[u8], pos: usize) -> (r: Option<(Ieee802154, usize)>)
    ensures
        match ieee_at(b@, pos as int) {
            Some((s, next)) => r matches Some((got, end)) && got == s && end as int == next,
            None => r is None,
        },
{
    let mut s = Ieee802154 {
        phy: None,
        oqpsk_rate: None,
        mr_oqpsk_chips: None,
        mr_oqpsk_rate: None,
        mr_ofdm_option: None,
        mr_ofdm_mcs: None,
        mr_fsk_modulation_index: None,
        mr_fsk_modulation_order: None,
        mr_fsk_srate: None,
        mr_fsk_fec: None,
        channel_spacing: None,
    };
    let p1 = match crate::cbor::try_map(b, pos) {
        (Some(_), p) => p,
        (None, _) => return Some((s, pos)),
    };
    let mut p = p1;
    loop
        invariant
            p1 <= p <= b.len(),
            ieee_entries(b@, p1 as int, Ieee802154::empty()) == ieee_entries(b@, p as int, s),
            ieee_at(b@, pos as int) == match ieee_entries(b@, p1 as int, Ieee802154::empty()) {
                Some((s2, p2)) => match cbor_skip_end(b@, p2) {
                    Some(p3) => Some((s2, p3)),
                    None => None,
                },
                None => None,
            },
        ensures
            p1 <= p <= b.len(),
            cbor_u64(b@, p as int) is None,
        decreases b.len() - p,
    {
        let (tag, q1) = match crate::cbor::read_u64(b, p) {
            Some(x) => x,
            None => break,
        };
        if tag < 11 {
            match crate::cbor::read_u32(b, q1) {
                Some((v, q2)) => {
                    if q2 <= p || q2 > b.len() {
                        return None;
                    }
                    ieee_set_exec(&mut s, tag, v);
                    p = q2;
                },
                None => return None,
            }
        } else {
            match crate::cbor::skip_item(b, q1) {
                Some(q2) => {
                    if q2 <= p || q2 > b.len() {
                        return None;
                    }
                    p = q2;
                },
                None => return None,
            }
        }
    }
    match crate::cbor::skip_item(b, p) {
        Some(p3) => Some((s, p3)),
        None => None,
    }
}

impl NetifFlags {
    /// Sets the flags read at `pos` (see `flags_at`); where the flags end.
    pub fn set(&mut self, b: &[u8], pos: usize) -> (r: Option<usize>)
        ensures
            match flags_at(b@, pos as int, *old(self)) {
                Some((f, next)) => r matches Some(end) && end as int == next && *final(self) == f,
                None => r is None,
            },
    {
        let p1 = match crate::cbor::read_array(b, pos) {
            Some((_, p)) => p,
            None => return Some(pos),
        };
        let ghost start = *self;
        let mut p = p1;
        loop
            invariant
                p1 <= p <= b.len(),
                start == *old(self),
                flag_entries(b@, p1 as int, start) == flag_entries(b@, p as int, *self),
                flags_at(b@, pos as int, start) == match flag_entries(b@, p1 as int, start) {
                    Some((g, p2)) => if is_break(b@, p2) {
                        Some((g, p2 + 1))
                    } else {
                        Some((g, p2))
                    },
                    None => None,
                },
            ensures
                p1 <= p <= b.len(),
                cbor_u64(b@, p as int) is None,
            decreases b.len() - p,
        {
            let (tag, q1) = match crate::cbor::read_u64(b, p) {
                Some(x) => x,
                None => break,
            };
            match crate::cbor::read_bool(b, q1) {
                Some((v, q2)) => {
                    if q2 <= p || q2 > b.len() {
                        return None;
                    }
                    flags_set_exec(self, tag, v);
                    p = q2;
                },
                None => return None,
            }
        }
        if p < b.len() && b[p] == 0xff {
            return crate::cbor::skip_item(b, p);
        }
        Some(p)
    }
}

/// A network interface as the device describes it.
pub struct Netif {
    pub name: String,
    pub mac: Option<Eui64>,
    pub ipv6addr: Vec<Ipv6AddrCidr>,
    pub wired: bool,
    pub channel: Option<u16>,
    pub channel_frequency: Option<u32>,
    pub channel_page: Option<u16>,
    pub network_id: Option<u16>,
    pub rssi: Option<i16>,
    pub link: Option<bool>,
    pub tx_power: Option<u16>,
    pub state: Option<u32>,
    pub retrans: Option<u8>,
    pub csma_retries: Option<u8>,
    pub l2_pdu: Option<u16>,
    pub mtu: Option<u16>,
    pub hop_limit: Option<u8>,
    pub ieee802154: Option<Ieee802154>,
    pub netif_flags: NetifFlags,
    pub lora: Option<Lora>,
}

/// An interface as a value.
pub struct NetifView {
    pub name: Seq<char>,
    pub mac: Option<Seq<u8>>,
    pub ipv6addr: Seq<CidrView>,
    pub wired: bool,
    pub channel: Option<u16>,
    pub channel_frequency: Option<u32>,
    pub channel_page: Option<u16>,
    pub network_id: Option<u16>,
    pub rssi: Option<i16>,
    pub link: Option<bool>,
    pub tx_power: Option<u16>,
    pub state: Option<u32>,
    pub retrans: Option<u8>,
    pub csma_retries: Option<u8>,
    pub l2_pdu: Option<u16>,
    pub mtu: Option<u16>,
    pub hop_limit: Option<u8>,
    pub ieee802154: Option<Ieee802154>,
    pub netif_flags: NetifFlags,
    pub lora: Option<Lora>,
}

impl View for Netif {
    type V = NetifView;

    open spec fn view(&self) -> NetifView {
        NetifView {
            name: self.name@,
            mac: match self.mac {
                Some(m) => Some(m@),
                None => None,
            },
            ipv6addr: cidr_views(self.ipv6addr@),
            wired: self.wired,
            channel: self.channel,
            channel_frequency: self.channel_frequency,
            channel_page: self.channel_page,
            network_id: self.network_id,
            rssi: self.rssi,
            link: self.link,
            tx_power: self.tx_power,
            state: self.state,
            retrans: self.retrans,
            csma_retries: self.csma_retries,
            l2_pdu: self.l2_pdu,
            mtu: self.mtu,
            hop_limit: self.hop_limit,
            ieee802154: self.ieee802154,
            netif_flags: self.netif_flags,
            lora: self.lora,
        }
    }
}

/// An interface before anything is read: named `NoName`, wired.
pub open spec fn netif_default() -> NetifView {
    NetifView {
        name: "NoName"@,
        mac: None,
        ipv6addr: Seq::empty(),
        wired: true,
        channel: None,
        channel_frequency: None,
        channel_page: None,
        network_id: None,
        rssi: None,
        link: None,
        tx_power: None,
        state: None,
        retrans: None,
        csma_retries: None,
        l2_pdu: None,
        mtu: None,
        hop_limit: None,
        ieee802154: None,
        netif_flags: NetifFlags::empty(),
        lora: None,
    }
}

/// The addresses of the entry at `pos` put after `acc`: an array of tagged
/// addresses, if one starts there, closed by a break byte if one follows.
pub open spec fn address_entry(b: Seq<u8>, pos: int, acc: Seq<CidrView>) -> Option<(Seq<CidrView>, int)> {
    let q = match cbor_array(b, pos) {
        Some((_, p1)) => cidr_list(b, p1, acc),
        None => Some((acc, pos)),
    };
    match q {
        Some((l, p2)) => Some((l, if is_break(b, p2) { p2 + 1 } else { p2 })),
        None => None,
    }
}

/// One entry of an interface, whose tag number `tag` was read and whose
/// value starts at `pos`: the interface with it set, and where the entry
/// ends.  Entries with unknown tags are skipped.
pub open spec fn netif_step(b: Seq<u8>, pos: int, tag: u64, me: NetifView) -> Option<(NetifView, int)> {
    if tag == 0 {
        match cbor_str(b, pos) {
            Some((n, p)) => Some((NetifView { name: n, ..me }, p)),
            None => None,
        }
    } else if tag == 2 {
        match cbor_tag(b, pos) {
            Some((t, p1)) => if t == TAG_IEEE_MAC {
                match cbor_bytes(b, p1) {
                    Some((d, p2)) => Some((NetifView { mac: Some(eui64_of(d)), ..me }, p2)),
                    None => None,
                }
            } else {
                Some((me, p1))
            },
            None => Some((me, attempt_end(b, pos, 0xc0, 0xdb))),
        }
    } else if tag == 4 || tag == 5 {
        match address_entry(b, pos, me.ipv6addr) {
            Some((l, p)) => Some((NetifView { ipv6addr: l, ..me }, p)),
            None => None,
        }
    } else if tag == 3 {
        match cbor_bool(b, pos) {
            Some((v, p)) => Some((NetifView { wired: v, ..me }, p)),
            None => None,
        }
    } else if tag == 6 {
        match cbor_u16(b, pos) {
            Some((v, p)) => Some((NetifView { channel: Some(v), ..me }, p)),
            None => None,
        }
    } else if tag == 7 {
        match cbor_u32(b, pos) {
            Some((v, p)) => Some((NetifView { channel_frequency: Some(v), ..me }, p)),
            None => None,
        }
    } else if tag == 8 {
        match cbor_u16(b, pos) {
            Some((v, p)) => Some((NetifView { channel_page: Some(v), ..me }, p)),
            None => None,
        }
    } else if tag == 9 {
        match cbor_u16(b, pos) {
            Some((v, p)) => Some((NetifView { network_id: Some(v), ..me }, p)),
            None => None,
        }
    } else if tag == 10 {
        match cbor_i16(b, pos) {
            Some((v, p)) => Some((NetifView { rssi: Some(v), ..me }, p)),
            None => None,
        }
    } else if tag == 12 {
        match cbor_bool(b, pos) {
            Some((v, p)) => Some((NetifView { link: Some(v), ..me }, p)),
            None => None,
        }
    } else if tag == 14 {
        match cbor_u16(b, pos) {
            Some((v, p)) => Some((NetifView { tx_power: Some(v), ..me }, p)),
            None => None,
        }
    } else if tag == 15 {
        match cbor_u32(b, pos) {
            Some((v, p)) => Some((NetifView { state: Some(v), ..me }, p)),
            None => None,
        }
    } else if tag == 16 {
        match cbor_u8(b, pos) {
            Some((v, p)) => Some((NetifView { retrans: Some(v), ..me }, p)),
            None => None,
        }
    } else if tag == 17 {
        match cbor_u8(b, pos) {
            Some((v, p)) => Some((NetifView { csma_retries: Some(v), ..me }, p)),
            None => None,
        }
    } else if tag == 23 {
        match ieee_at(b, pos) {
            Some((v, p)) => Some((NetifView { ieee802154: Some(v), ..me }, p)),
            None => None,
        }
    } else if tag == 22 {
        match flags_at(b, pos, me.netif_flags) {
            Some((v, p)) => Some((NetifView { netif_flags: v, ..me }, p)),
            None => None,
        }
    } else if tag == 18 {
        match cbor_u16(b, pos) {
            Some((v, p)) => Some((NetifView { l2_pdu: Some(v), ..me }, p)),
            None => None,
        }
    } else if tag == 19 {
        match cbor_u16(b, pos) {
            Some((v, p)) => Some((NetifView { mtu: Some(v), ..me }, p)),
            None => None,
        }
    } else if tag == 20 {
        match cbor_u8(b, pos) {
            Some((v, p)) => Some((NetifView { hop_limit: Some(v), ..me }, p)),
            None => None,
        }
    } else if tag == 24 {
        match lora_at(b, pos) {
            Some((v, p)) => Some((NetifView { lora: Some(v), ..me }, p)),
            None => None,
        }
    } else {
        match cbor_skip_end(b, pos) {
            Some(p) => Some((me, p)),
            None => None,
        }
    }
}

/// The entries of an interface from `pos` on, set onto `me`, for as long
/// as a tag number comes; `None` when one cannot be read.
pub open spec fn netif_fields(b: Seq<u8>, pos: int, me: NetifView) -> Option<(NetifView, int)>
    decreases b.len() - pos,
{
    match cbor_u64(b, pos) {
        None => Some((me, pos)),
        Some((tag, p1)) => match netif_step(b, p1, tag, me) {
            Some((n, p2)) => if pos < p2 <= b.len() {
                netif_fields(b, p2, n)
            } else {
                None
            },
            None => None,
        },
    }
}

impl Netif {
    /// Reads one entry (see `netif_step`).
    fn step(&mut self, b: &[u8], pos: usize, tag: u64) -> (r: Option<usize>)
        ensures
            match netif_step(b@, pos as int, tag, old(self)@) {
                Some((n, next)) => r matches Some(end) && end as int == next && final(self)@ == n,
                None => r is None,
            },
    {
        if tag == 0 {
            match crate::cbor::read_str(b, pos) {
                Some((n, p)) => {
                    self.name = n;
                    Some(p)
                },
                None => None,
            }
        } else if tag == 2 {
            let (t, p1) = crate::cbor::try_tag(b, pos);
            match t {
                Some(t) => if t == TAG_IEEE_MAC {
                    match crate::cbor::read_bytes(b, p1) {
                        Some((d, p2)) => {
                            self.mac = Some(Eui64::new(d.as_slice()));
                            Some(p2)
                        },
                        None => None,
                    }
                } else {
                    Some(p1)
                },
                None => Some(p1),
            }
        } else if tag == 4 || tag == 5 {
            let mut list: Vec<Ipv6AddrCidr> = Vec::new();
            std::mem::swap(&mut list, &mut self.ipv6addr);
            let q = match crate::cbor::read_array(b, pos) {
                Some((_, p1)) => read_cidr_list(b, p1, list),
                None => Some((list, pos)),
            };
            match q {
                Some((l, p2)) => {
                    self.ipv6addr = l;
                    if p2 < b.len() && b[p2] == 0xff {
                        Some(p2 + 1)
                    } else {
                        Some(p2)
                    }
                },
                None => None,
            }
        } else if tag == 3 {
            match crate::cbor::read_bool(b, pos) {
                Some((v, p)) => {
                    self.wired = v;
                    Some(p)
                },
                None => None,
            }
        } else if tag == 6 || tag == 8 || tag == 9 || tag == 14 || tag == 18 || tag == 19 {
            match crate::cbor::read_u16(b, pos) {
                Some((v, p)) => {
                    if tag == 6 {
                        self.channel = Some(v);
                    } else if tag == 8 {
                        self.channel_page = Some(v);
                    } else if tag == 9 {
                        self.network_id = Some(v);
                    } else if tag == 14 {
                        self.tx_power = Some(v);
                    } else if tag == 18 {
                        self.l2_pdu = Some(v);
                    } else {
                        self.mtu = Some(v);
                    }
                    Some(p)
                },
                None => None,
            }
        } else if tag == 7 || tag == 15 {
            match crate::cbor::read_u32(b, pos) {
                Some((v, p)) => {
                    if tag == 7 {
                        self.channel_frequency = Some(v);
                    } else {
                        self.state = Some(v);
                    }
                    Some(p)
                },
                None => None,
            }
        } else if tag == 10 {
            match crate::cbor::read_i16(b, pos) {
                Some((v, p)) => {
                    self.rssi = Some(v);
                    Some(p)
                },
                None => None,
            }
        } else if tag == 12 {
            match crate::cbor::read_bool(b, pos) {
                Some((v, p)) => {
                    self.link = Some(v);
                    Some(p)
                },
                None => None,
            }
        } else if tag == 16 || tag == 17 || tag == 20 {
            match crate::cbor::read_u8(b, pos) {
                Some((v, p)) => {
                    if tag == 16 {
                        self.retrans = Some(v);
                    } else if tag == 17 {
                        self.csma_retries = Some(v);
                    } else {
                        self.hop_limit = Some(v);
                    }
                    Some(p)
                },
                None => None,
            }
        } else if tag == 23 {
            match ieee_from_cbor(b, pos) {
                Some((v, p)) => {
                    self.ieee802154 = Some(v);
                    Some(p)
                },
                None => None,
            }
        } else if tag == 22 {
            self.netif_flags.set(b, pos)
        } else if tag == 24 {
            match lora_from_cbor(b, pos) {
                Some((v, p)) => {
                    self.lora = Some(v);
                    Some(p)
                },
                None => None,
            }
        } else {
            crate::cbor::skip_item(b, pos)
        }
    }

    /// Reads an interface's entries from `pos` on (see `netif_fields`),
    /// starting from `netif_default`; where they end.
    pub fn from_cbor(b: &[u8], pos: usize) -> (r: Option<(Self, usize)>)
        ensures
            match netif_fields(b@, pos as int, netif_default()) {
                Some((n, next)) => r matches Some((got, end)) && got@ == n && end as int == next,
                None => r is None,
            },
    {
        let mut me = Netif {
            name: "NoName".to_owned(),
            mac: None,
            ipv6addr: Vec::new(),
            wired: true,
            channel: None,
            channel_frequency: None,
            channel_page: None,
            network_id: None,
            rssi: None,
            link: None,
            tx_power: None,
            state: None,
            retrans: None,
            csma_retries: None,
            l2_pdu: None,
            mtu: None,
            hop_limit: None,
            ieee802154: None,
            netif_flags: NetifFlags {
                promisc: None,
                autoack: None,
                ack_req: None,
                preload: None,
                rawmode: None,
                mac_no_sleep: None,
                csma: None,
                autocca: None,
                iq_invert: None,
                rx_single: None,
                chan_hop: None,
                otaa: None,
                rtr: None,
                rtr_adv: None,
                sixlo: None,
                abr: None,
                iphc: None,
            },
            lora: None,
        };
        assert(cidr_views(me.ipv6addr@) =~= Seq::<CidrView>::empty());
        assert(me@ == netif_default());
        let mut p = pos;
        if p > b.len() {
            return Some((me, p));
        }
        loop
            invariant
                p <= b.len(),
                netif_fields(b@, pos as int, netif_default()) == netif_fields(b@, p as int, me@),
            decreases b.len() - p,
        {
            let (tag, p1) = match crate::cbor::read_u64(b, p) {
                Some(x) => x,
                None => return Some((me, p)),
            };
            match me.step(b, p1, tag) {
                Some(p2) => {
                    if p2 <= p || p2 > b.len() {
                        return None;
                    }
                    p = p2;
                },
                None => return None,
            }
        }
    }
}

/// What std's `Display` writes for the IPv6 address of these sixteen
/// bytes (RFC 5952 text form).
pub uninterp spec fn ipv6_display(addr: Seq<u8>) -> Seq<char>;

/// The IPv6 address of sixteen bytes as text (std's `Ipv6Addr` and its
/// `Display`).
#[verifier::external_body]
pub(crate) fn ipv6_string(addr: &[u8]) -> (r: String)
    requires
        addr@.len() == 16,
    ensures
        r@ == ipv6_display(addr@),
{
    let octets: [u8; 16] = match <[u8; 16]>::try_from(addr) {
        Ok(a) => a,
        Err(_) => [0; 16],
    };
    core::net::Ipv6Addr::from(octets).to_string()
}

/// An address as text: a multicast address alone, any other with `/` and
/// its prefix length.
pub open spec fn cidr_text(c: CidrView) -> Seq<char> {
    if is_multicast(c.addr) {
        ipv6_display(c.addr)
    } else {
        ipv6_display(c.addr) + "/"@ + digits(c.prefix as nat, 10)
    }
}

/// A hardware address as upper-case hexadecimal bytes separated by `:`.
pub open spec fn eui_text(m: Seq<u8>) -> Seq<char>
    decreases m.len(),
{
    if m.len() == 0 {
        Seq::empty()
    } else if m.len() == 1 {
        hex2(m[0])
    } else {
        eui_text(m.drop_last()) + ":"@ + hex2(m.last())
    }
}

/// A signed number in decimal.
pub open spec fn signed_text(v: int) -> Seq<char> {
    if v < 0 {
        "-"@ + digits((-v) as nat, 10)
    } else {
        digits(v as nat, 10)
    }
}

/// `label` and the number, when there is one.
pub open spec fn labeled(label: Seq<char>, v: Option<nat>) -> Seq<char> {
    match v {
        Some(x) => label + digits(x, 10),
        None => Seq::empty(),
    }
}

/// `label`, the number and `suffix`, when there is a number.
pub open spec fn labeled_with(label: Seq<char>, v: Option<nat>, suffix: Seq<char>) -> Seq<char> {
    match v {
        Some(x) => label + digits(x, 10) + suffix,
        None => Seq::empty(),
    }
}

/// A small number as a natural number, when there is one.
pub open spec fn nat8(v: Option<u8>) -> Option<nat> {
    match v {
        Some(x) => Some(x as nat),
        None => None,
    }
}

/// A 16-bit number as a natural number, when there is one.
pub open spec fn nat16(v: Option<u16>) -> Option<nat> {
    match v {
        Some(x) => Some(x as nat),
        None => None,
    }
}

/// A 32-bit number as a natural number, when there is one.
pub open spec fn nat32(v: Option<u32>) -> Option<nat> {
    match v {
        Some(x) => Some(x as nat),
        None => None,
    }
}

/// `name` when the flag is set.
pub open spec fn flag_piece(f: Option<bool>, name: Seq<char>) -> Seq<char> {
    if f == Some(true) {
        name
    } else {
        Seq::empty()
    }
}

/// The flags that are set, each as two spaces and its name.
pub open spec fn flags_text(f: NetifFlags) -> Seq<char> {
    flag_piece(f.promisc, "  PROMISC"@)
        + flag_piece(f.autoack, "  AUTOACK"@)
        + flag_piece(f.ack_req, "  ACK_REQ"@)
        + flag_piece(f.preload, "  PRELOAD"@)
        + flag_piece(f.rawmode, "  RAWMODE"@)
        + flag_piece(f.mac_no_sleep, "  MAC_NO_SLEEP"@)
        + flag_piece(f.csma, "  CSMA"@)
        + flag_piece(f.autocca, "  AUTOCCA"@)
        + flag_piece(f.iq_invert, "  IQ_INVERT"@)
        + flag_piece(f.rx_single, "  RX_SINGLE"@)
        + flag_piece(f.chan_hop, "  CHAN_HOP"@)
        + flag_piece(f.otaa, "  OTAA"@)
        + flag_piece(f.rtr, "  RTR"@)
        + flag_piece(f.rtr_adv, "  RTR_ADV"@)
        + flag_piece(f.sixlo, "  6LO"@)
        + flag_piece(f.abr, "  ABR"@)
        + flag_piece(f.iphc, "  IPHC"@)
}


/// The name of a PHY mode (below 7).
pub open spec fn phy_name(p: u32) -> Seq<char> {
    if p == 0 {
        "DISABLED"@
    } else if p == 1 {
        "BPSK"@
    } else if p == 2 {
        "ASK"@
    } else if p == 3 {
        "O-QPSK"@
    } else if p == 4 {
        "MR-O-QPSK"@
    } else if p == 5 {
        "MR-OFDM"@
    } else if p == 6 {
        "MR-FSK"@
    } else {
        Seq::empty()
    }
}


/// The name of a radio state (below 7).
pub open spec fn state_name(st: u32) -> Seq<char> {
    if st == 0 {
        "OFF"@
    } else if st == 1 {
        "SLEEP"@
    } else if st == 2 {
        "IDLE"@
    } else if st == 3 {
        "RX"@
    } else if st == 4 {
        "TX"@
    } else if st == 5 {
        "RESET"@
    } else if st == 6 {
        "STANDBY"@
    } else {
        Seq::empty()
    }
}


/// The bandwidth of a LoRa bandwidth setting (below 3), in kHz.
pub open spec fn bandwidth_name(bw: u32) -> Seq<char> {
    if bw == 0 {
        "125"@
    } else if bw == 1 {
        "250"@
    } else if bw == 2 {
        "500"@
    } else {
        Seq::empty()
    }
}


/// The coding rate of a LoRa coding-rate setting (below 4).
pub open spec fn coding_rate_name(cr: u32) -> Seq<char> {
    if cr == 0 {
        "4/5"@
    } else if cr == 1 {
        "4/6"@
    } else if cr == 2 {
        "4/7"@
    } else if cr == 3 {
        "4/8"@
    } else {
        Seq::empty()
    }
}


/// The IEEE 802.15.4 settings as text, each known one as two spaces, its
/// label and its value.
pub open spec fn ieee_text(s: Ieee802154) -> Seq<char> {
    (match s.phy {
        Some(p) => if p < 7 {
            "  PHY: "@ + phy_name(p)
        } else {
            Seq::empty()
        },
        None => Seq::empty(),
    }) + labeled("  oqpsk_rate: "@, nat32(s.oqpsk_rate)) + labeled("  mr_oqpsk_chips: "@, nat32(s.mr_oqpsk_chips))
        + labeled("  mr_oqpsk_rate: "@, nat32(s.mr_oqpsk_rate)) + labeled("  mr_ofdm_option: "@, nat32(s.mr_ofdm_option))
        + labeled("  mr_ofdm_mcs: "@, nat32(s.mr_ofdm_mcs)) + labeled_with(
        "  mr_fsk_modulation_index: "@,
        nat32(s.mr_fsk_modulation_index),
        "\n"@,
    ) + labeled_with("  mr_fsk_modulation_order: "@, nat32(s.mr_fsk_modulation_order), "-FSK"@) + labeled_with(
        "  mr_fsk_srate: "@,
        nat32(s.mr_fsk_srate),
        " kHz"@,
    ) + labeled("  mr_fsk_fec: "@, nat32(s.mr_fsk_fec)) + labeled_with(
        "  channel_spacing: "@,
        nat32(s.channel_spacing),
        " kHz"@,
    )
}

/// The LoRa settings as text.
pub open spec fn lora_text(l: Lora) -> Seq<char> {
    (match l.bandwidth {
        Some(bw) => if bw < 3 {
            "  BW: "@ + bandwidth_name(bw as u32) + " kHz"@
        } else {
            Seq::empty()
        },
        None => Seq::empty(),
    }) + labeled("  spreading_factor: "@, nat8(l.spreading_factor)) + (match l.coding_rate {
        Some(cr) => if cr < 4 {
            "  CR: "@ + coding_rate_name(cr as u32)
        } else {
            Seq::empty()
        },
        None => Seq::empty(),
    }) + labeled("  demod_margin: "@, nat8(l.demod_margin)) + labeled("  num_gateways: "@, nat8(l.num_gateways))
}

/// The lines of the addresses: groups for multicast addresses, addresses
/// for the others.
pub open spec fn address_lines(a: Seq<CidrView>) -> Seq<char>
    decreases a.len(),
{
    if a.len() == 0 {
        Seq::empty()
    } else {
        address_lines(a.drop_last()) + (if is_multicast(a.last().addr) {
            "  inet6 group: "@
        } else {
            "  inet6 addr: "@
        }) + cidr_text(a.last()) + "\n"@
    }
}

proof fn lemma_address_lines_concat(a: Seq<CidrView>, b: Seq<CidrView>)
    ensures
        address_lines(a + b) == address_lines(a) + address_lines(b),
    decreases b.len(),
{
    if b.len() == 0 {
        assert(a + b =~= a);
    } else {
        lemma_address_lines_concat(a, b.drop_last());
        assert((a + b).drop_last() =~= a + b.drop_last());
        assert((a + b).last() == b.last());
    }
}

/// The line of one address.
spec fn labelled_line(c: CidrView) -> Seq<char> {
    (if c.addr[0] == 0xff {
        "  inet6 group: "@
    } else {
        "  inet6 addr: "@
    }) + cidr_text(c) + "\n"@
}

proof fn lemma_address_line_at(a: Seq<CidrView>, i: int)
    requires
        0 <= i < a.len(),
    ensures
        address_lines(a) == address_lines(a.take(i)) + labelled_line(a[i]) + address_lines(a.skip(i + 1)),
{
    let line = labelled_line(a[i]);
    let one = seq![a[i]];
    assert(one.drop_last() =~= Seq::<CidrView>::empty());
    assert(address_lines(one.drop_last()) == Seq::<char>::empty());
    assert(one.last() == a[i]);
    assert(address_lines(one) =~= line);
    lemma_address_lines_concat(a.take(i), one);
    assert(a.take(i) + one =~= a.take(i + 1));
    lemma_address_lines_concat(a.take(i + 1), a.skip(i + 1));
    assert(a.take(i + 1) + a.skip(i + 1) =~= a);
}

/// In the text of an interface, each address has a line of its own, in
/// the order of the addresses: a multicast address (first byte `0xff`) is
/// shown as a group, `  inet6 group: `, and any other as an address,
/// `  inet6 addr: `, followed by the address and its prefix length. The
/// lines of the addresses before it come first, unchanged.
pub proof fn law_address_lines_are_labelled(n: NetifView, i: int)
    requires
        0 <= i < n.ipv6addr.len(),
    ensures
        ({
            let a = n.ipv6addr;
            let before = NetifView { ipv6addr: a.take(i), ..n };
            let label = if a[i].addr[0] == 0xff {
                "  inet6 group: "@
            } else {
                "  inet6 addr: "@
            };
            &&& netif_tail(before).is_prefix_of(netif_tail(n))
            &&& (label + cidr_text(a[i]) + "\n"@).is_prefix_of(netif_tail(n).skip(netif_tail(before).len() as int))
        }),
{
    let a = n.ipv6addr;
    let before = NetifView { ipv6addr: a.take(i), ..n };
    let line = labelled_line(a[i]);
    let rest = address_lines(a.skip(i + 1));
    lemma_address_line_at(a, i);
    let p = netif_tail(before);
    assert(netif_tail(n) =~= p + line + rest);
    assert(netif_tail(n).subrange(0, p.len() as int) =~= p);
    assert(netif_tail(n).skip(p.len() as int) =~= line + rest);
    assert((line + rest).subrange(0, line.len() as int) =~= line);
}

/// The addresses of an interface follow one line telling its link type:
/// wired for a wired interface, wireless otherwise; without addresses that
/// line is all.
pub proof fn law_interface_link_type(n: NetifView)
    ensures
        n.wired ==> "  Link type: wired\n"@.is_prefix_of(netif_tail(n)),
        !n.wired ==> "  Link type: wireless\n"@.is_prefix_of(netif_tail(n)),
        n.ipv6addr.len() == 0 ==> netif_tail(n) == (if n.wired {
            "  Link type: wired\n"@
        } else {
            "  Link type: wireless\n"@
        }),
{
    let head: Seq<char> = if n.wired {
        "  Link type: wired\n"@
    } else {
        "  Link type: wireless\n"@
    };
    assert(netif_tail(n).subrange(0, head.len() as int) =~= head);
    if n.ipv6addr.len() == 0 {
        assert(address_lines(n.ipv6addr) == Seq::<char>::empty());
        assert(netif_tail(n) =~= head);
    }
}

/// The first lines of an interface: its name, its hardware address and
/// its radio settings.
pub open spec fn netif_head(n: NetifView) -> Seq<char> {
    "Iface "@ + n.name + "\n"@ + (match n.mac {
        Some(m) => "  HWaddr: "@ + eui_text(m) + "\n"@,
        None => Seq::empty(),
    }) + labeled("  Channel: "@, nat16(n.channel)) + labeled("  Frequency: "@, nat32(n.channel_frequency))
        + labeled("  Page: "@, nat16(n.channel_page)) + (match n.network_id {
        Some(nid) => "  NID: 0x"@ + hex_lower(nid as nat),
        None => Seq::empty(),
    }) + (match n.rssi {
        Some(r) => "  RSSI: "@ + signed_text(r as int),
        None => Seq::empty(),
    }) + (match n.ieee802154 {
        Some(i) => ieee_text(i),
        None => Seq::empty(),
    }) + "\n"@
}

/// The LoRa settings, the link, the power and the state of an interface.
pub open spec fn netif_mid(n: NetifView) -> Seq<char> {
    (match n.lora {
        Some(l) => lora_text(l) + "\n"@,
        None => Seq::empty(),
    }) + (match n.link {
        Some(true) => "  Link: true"@,
        Some(false) => "  Link: false"@,
        None => Seq::empty(),
    }) + labeled("  TX-Power: "@, nat16(n.tx_power)) + (match n.state {
        Some(st) => "  State: "@ + if st < 7 {
            state_name(st)
        } else {
            digits(st as nat, 10)
        },
        None => Seq::empty(),
    }) + "\n"@
}

/// The flags and sizes of an interface.
pub open spec fn netif_sizes(n: NetifView) -> Seq<char> {
    flags_text(n.netif_flags) + labeled("  L2-PDU:"@, nat16(n.l2_pdu)) + labeled("  MTU:"@, nat16(n.mtu)) + labeled(
        "  HL:"@,
        nat8(n.hop_limit),
    ) + labeled("  Retransmission: "@, nat8(n.retrans)) + labeled("  CSMA: "@, nat8(n.csma_retries)) + "\n"@
}

/// The link type and the addresses of an interface.
pub open spec fn netif_tail(n: NetifView) -> Seq<char> {
    (if n.wired {
        "  Link type: wired\n"@
    } else {
        "  Link type: wireless\n"@
    }) + address_lines(n.ipv6addr)
}

/// An interface as text: its name; its hardware address; its radio
/// settings; its link, power and state; its flags and sizes; its link
/// type; its addresses.
pub open spec fn netif_text(n: NetifView) -> Seq<char> {
    netif_head(n) + netif_mid(n) + netif_sizes(n) + netif_tail(n)
}

/// Whether an interface can be shown: its hardware address, if any, is
/// not empty, and its addresses are sixteen bytes long.
pub open spec fn netif_showable(n: NetifView) -> bool {
    &&& (n.mac matches Some(m) ==> m.len() > 0)
    &&& forall|i: int| 0 <= i < n.ipv6addr.len() ==> (#[trigger] n.ipv6addr[i]).addr.len() == 16
}

fn phy_name_exec(p: u32) -> (r: &'static str)
    requires
        p < 7,
    ensures
        r@ == phy_name(p),
{
    match p {
        0 => "DISABLED",
        1 => "BPSK",
        2 => "ASK",
        3 => "O-QPSK",
        4 => "MR-O-QPSK",
        5 => "MR-OFDM",
        6 => "MR-FSK",
        _ => "",
    }
}


fn state_name_exec(st: u32) -> (r: &'static str)
    requires
        st < 7,
    ensures
        r@ == state_name(st),
{
    match st {
        0 => "OFF",
        1 => "SLEEP",
        2 => "IDLE",
        3 => "RX",
        4 => "TX",
        5 => "RESET",
        6 => "STANDBY",
        _ => "",
    }
}


fn bandwidth_name_exec(bw: u32) -> (r: &'static str)
    requires
        bw < 3,
    ensures
        r@ == bandwidth_name(bw),
{
    match bw {
        0 => "125",
        1 => "250",
        2 => "500",
        _ => "",
    }
}


fn coding_rate_name_exec(cr: u32) -> (r: &'static str)
    requires
        cr < 4,
    ensures
        r@ == coding_rate_name(cr),
{
    match cr {
        0 => "4/5",
        1 => "4/6",
        2 => "4/7",
        3 => "4/8",
        _ => "",
    }
}


fn flag_piece_string(f: Option<bool>, name: &str) -> (r: String)
    ensures
        r@ == flag_piece(f, name@),
{
    if f == Some(true) {
        name.to_owned()
    } else {
        String::new()
    }
}

fn flags_string(f: &NetifFlags) -> (r: String)
    ensures
        r@ == flags_text(*f),
{
    let mut out = flag_piece_string(f.promisc, "  PROMISC");
    string_push_str(&mut out, flag_piece_string(f.autoack, "  AUTOACK").as_str());
    string_push_str(&mut out, flag_piece_string(f.ack_req, "  ACK_REQ").as_str());
    string_push_str(&mut out, flag_piece_string(f.preload, "  PRELOAD").as_str());
    string_push_str(&mut out, flag_piece_string(f.rawmode, "  RAWMODE").as_str());
    string_push_str(&mut out, flag_piece_string(f.mac_no_sleep, "  MAC_NO_SLEEP").as_str());
    string_push_str(&mut out, flag_piece_string(f.csma, "  CSMA").as_str());
    string_push_str(&mut out, flag_piece_string(f.autocca, "  AUTOCCA").as_str());
    string_push_str(&mut out, flag_piece_string(f.iq_invert, "  IQ_INVERT").as_str());
    string_push_str(&mut out, flag_piece_string(f.rx_single, "  RX_SINGLE").as_str());
    string_push_str(&mut out, flag_piece_string(f.chan_hop, "  CHAN_HOP").as_str());
    string_push_str(&mut out, flag_piece_string(f.otaa, "  OTAA").as_str());
    string_push_str(&mut out, flag_piece_string(f.rtr, "  RTR").as_str());
    string_push_str(&mut out, flag_piece_string(f.rtr_adv, "  RTR_ADV").as_str());
    string_push_str(&mut out, flag_piece_string(f.sixlo, "  6LO").as_str());
    string_push_str(&mut out, flag_piece_string(f.abr, "  ABR").as_str());
    string_push_str(&mut out, flag_piece_string(f.iphc, "  IPHC").as_str());
    out
}


fn labeled_string(label: &str, v: Option<u64>) -> (r: String)
    ensures
        r@ == labeled(
            label@,
            match v {
                Some(x) => Some(x as nat),
                None => None,
            },
        ),
{
    match v {
        Some(x) => {
            let mut out = label.to_owned();
            string_push_str(&mut out, decimal(x).as_str());
            out
        },
        None => String::new(),
    }
}

fn labeled_with_string(label: &str, v: Option<u64>, suffix: &str) -> (r: String)
    ensures
        r@ == labeled_with(
            label@,
            match v {
                Some(x) => Some(x as nat),
                None => None,
            },
            suffix@,
        ),
{
    match v {
        Some(x) => {
            let mut out = label.to_owned();
            string_push_str(&mut out, decimal(x).as_str());
            string_push_str(&mut out, suffix);
            out
        },
        None => String::new(),
    }
}

fn widen8(v: Option<u8>) -> (r: Option<u64>)
    ensures
        match v {
            Some(x) => r == Some(x as u64),
            None => r is None,
        },
{
    match v {
        Some(x) => Some(x as u64),
        None => None,
    }
}

fn widen16(v: Option<u16>) -> (r: Option<u64>)
    ensures
        match v {
            Some(x) => r == Some(x as u64),
            None => r is None,
        },
{
    match v {
        Some(x) => Some(x as u64),
        None => None,
    }
}

fn widen32(v: Option<u32>) -> (r: Option<u64>)
    ensures
        match v {
            Some(x) => r == Some(x as u64),
            None => r is None,
        },
{
    match v {
        Some(x) => Some(x as u64),
        None => None,
    }
}

/// The IEEE 802.15.4 settings as text (see `ieee_text`).
#[verifier::rlimit(60)]
pub fn ieee_string(s: &Ieee802154) -> (r: String)
    ensures
        r@ == ieee_text(*s),
{
    let mut out = match s.phy {
        Some(p) => if p < 7 {
            let mut t = "  PHY: ".to_owned();
            string_push_str(&mut t, phy_name_exec(p));
            t
        } else {
            String::new()
        },
        None => String::new(),
    };
    string_push_str(&mut out, labeled_string("  oqpsk_rate: ", widen32(s.oqpsk_rate)).as_str());
    string_push_str(&mut out, labeled_string("  mr_oqpsk_chips: ", widen32(s.mr_oqpsk_chips)).as_str());
    string_push_str(&mut out, labeled_string("  mr_oqpsk_rate: ", widen32(s.mr_oqpsk_rate)).as_str());
    string_push_str(&mut out, labeled_string("  mr_ofdm_option: ", widen32(s.mr_ofdm_option)).as_str());
    string_push_str(&mut out, labeled_string("  mr_ofdm_mcs: ", widen32(s.mr_ofdm_mcs)).as_str());
    string_push_str(
        &mut out,
        labeled_with_string("  mr_fsk_modulation_index: ", widen32(s.mr_fsk_modulation_index), "\n").as_str(),
    );
    string_push_str(
        &mut out,
        labeled_with_string("  mr_fsk_modulation_order: ", widen32(s.mr_fsk_modulation_order), "-FSK").as_str(),
    );
    string_push_str(&mut out, labeled_with_string("  mr_fsk_srate: ", widen32(s.mr_fsk_srate), " kHz").as_str());
    string_push_str(&mut out, labeled_string("  mr_fsk_fec: ", widen32(s.mr_fsk_fec)).as_str());
    string_push_str(
        &mut out,
        labeled_with_string("  channel_spacing: ", widen32(s.channel_spacing), " kHz").as_str(),
    );
    out
}

/// The LoRa settings as text (see `lora_text`).
pub fn lora_string(l: &Lora) -> (r: String)
    ensures
        r@ == lora_text(*l),
{
    let mut out = match l.bandwidth {
        Some(bw) => if bw < 3 {
            let mut t = "  BW: ".to_owned();
            string_push_str(&mut t, bandwidth_name_exec(bw as u32));
            string_push_str(&mut t, " kHz");
            t
        } else {
            String::new()
        },
        None => String::new(),
    };
    string_push_str(&mut out, labeled_string("  spreading_factor: ", widen8(l.spreading_factor)).as_str());
    let cr = match l.coding_rate {
        Some(cr) => if cr < 4 {
            let mut t = "  CR: ".to_owned();
            string_push_str(&mut t, coding_rate_name_exec(cr as u32));
            t
        } else {
            String::new()
        },
        None => String::new(),
    };
    string_push_str(&mut out, cr.as_str());
    string_push_str(&mut out, labeled_string("  demod_margin: ", widen8(l.demod_margin)).as_str());
    string_push_str(&mut out, labeled_string("  num_gateways: ", widen8(l.num_gateways)).as_str());
    out
}

/// A hardware address as text (see `eui_text`).
fn eui_string(m: &Eui64) -> (r: String)
    ensures
        r@ == eui_text(m@),
{
    let d = &m.data;
    let mut out = String::new();
    assert(d@.take(0) =~= Seq::<u8>::empty());
    for i in 0..d.len()
        invariant
            d@ == m@,
            out@ == eui_text(d@.take(i as int)),
    {
        if i > 0 {
            string_push_str(&mut out, ":");
        }
        let v = crate::numfmt::hex_upper(d[i] as u64, 2);
        string_push_str(&mut out, crate::text::string_from_chars(v.as_slice()).as_str());
        assert(d@.take(i + 1).drop_last() =~= d@.take(i as int));
        if i == 0 {
            assert(d@.take(1) =~= seq![d@[0]]);
        }
    }
    assert(d@.take(d@.len() as int) =~= d@);
    out
}

/// An address as text (see `cidr_text`).
pub fn cidr_string(c: &Ipv6AddrCidr) -> (r: String)
    requires
        c@.addr.len() == 16,
    ensures
        r@ == cidr_text(c@),
{
    let mut out = ipv6_string(c.addr.as_slice());
    if c.addr[0] != 0xff {
        string_push_str(&mut out, "/");
        string_push_str(&mut out, decimal(c.prefix as u64).as_str());
    }
    out
}

/// A signed number in decimal.
fn signed_string(v: i16) -> (r: String)
    ensures
        r@ == signed_text(v as int),
{
    if v < 0 {
        let mut out = "-".to_owned();
        let m: u64 = (0 - (v as i32)) as u64;
        string_push_str(&mut out, decimal(m).as_str());
        out
    } else {
        decimal(v as u64)
    }
}

fn netif_head_string(n: &Netif) -> (r: String)
    ensures
        r@ == netif_head(n@),
{
    let mut out = "Iface ".to_owned();
    string_push_str(&mut out, n.name.as_str());
    string_push_str(&mut out, "\n");
    let mac = match &n.mac {
        Some(m) => {
            let mut t = "  HWaddr: ".to_owned();
            string_push_str(&mut t, eui_string(m).as_str());
            string_push_str(&mut t, "\n");
            t
        },
        None => String::new(),
    };
    string_push_str(&mut out, mac.as_str());
    string_push_str(&mut out, labeled_string("  Channel: ", widen16(n.channel)).as_str());
    string_push_str(&mut out, labeled_string("  Frequency: ", widen32(n.channel_frequency)).as_str());
    string_push_str(&mut out, labeled_string("  Page: ", widen16(n.channel_page)).as_str());
    let nid = match n.network_id {
        Some(x) => {
            let mut t = "  NID: 0x".to_owned();
            let v = crate::columns::hex_lower_exec(x as u64);
            string_push_str(&mut t, crate::text::string_from_chars(v.as_slice()).as_str());
            t
        },
        None => String::new(),
    };
    string_push_str(&mut out, nid.as_str());
    let rssi = match n.rssi {
        Some(x) => {
            let mut t = "  RSSI: ".to_owned();
            string_push_str(&mut t, signed_string(x).as_str());
            t
        },
        None => String::new(),
    };
    string_push_str(&mut out, rssi.as_str());
    let ieee = match &n.ieee802154 {
        Some(i) => ieee_string(i),
        None => String::new(),
    };
    string_push_str(&mut out, ieee.as_str());
    string_push_str(&mut out, "\n");
    out
}

fn netif_mid_string(n: &Netif) -> (r: String)
    ensures
        r@ == netif_mid(n@),
{
    let mut out = match &n.lora {
        Some(l) => {
            let mut t = lora_string(l);
            string_push_str(&mut t, "\n");
            t
        },
        None => String::new(),
    };
    let link = match n.link {
        Some(true) => "  Link: true".to_owned(),
        Some(false) => "  Link: false".to_owned(),
        None => String::new(),
    };
    string_push_str(&mut out, link.as_str());
    string_push_str(&mut out, labeled_string("  TX-Power: ", widen16(n.tx_power)).as_str());
    let state = match n.state {
        Some(st) => {
            let mut t = "  State: ".to_owned();
            if st < 7 {
                string_push_str(&mut t, state_name_exec(st));
            } else {
                string_push_str(&mut t, decimal(st as u64).as_str());
            }
            t
        },
        None => String::new(),
    };
    string_push_str(&mut out, state.as_str());
    string_push_str(&mut out, "\n");
    out
}

fn netif_sizes_string(n: &Netif) -> (r: String)
    ensures
        r@ == netif_sizes(n@),
{
    let mut out = flags_string(&n.netif_flags);
    string_push_str(&mut out, labeled_string("  L2-PDU:", widen16(n.l2_pdu)).as_str());
    string_push_str(&mut out, labeled_string("  MTU:", widen16(n.mtu)).as_str());
    string_push_str(&mut out, labeled_string("  HL:", widen8(n.hop_limit)).as_str());
    string_push_str(&mut out, labeled_string("  Retransmission: ", widen8(n.retrans)).as_str());
    string_push_str(&mut out, labeled_string("  CSMA: ", widen8(n.csma_retries)).as_str());
    string_push_str(&mut out, "\n");
    out
}

fn netif_tail_string(n: &Netif) -> (r: String)
    requires
        netif_showable(n@),
    ensures
        r@ == netif_tail(n@),
{
    let mut out = if n.wired {
        "  Link type: wired\n".to_owned()
    } else {
        "  Link type: wireless\n".to_owned()
    };
    let ghost front = out@;
    let ghost a = n@.ipv6addr;
    assert(a.take(0) =~= Seq::<CidrView>::empty());
    for i in 0..n.ipv6addr.len()
        invariant
            a == n@.ipv6addr,
            a.len() == n.ipv6addr@.len(),
            netif_showable(n@),
            out@ == front + address_lines(a.take(i as int)),
    {
        let c = &n.ipv6addr[i];
        assert(a[i as int] == c@);
        if c.addr[0] == 0xff {
            string_push_str(&mut out, "  inet6 group: ");
        } else {
            string_push_str(&mut out, "  inet6 addr: ");
        }
        string_push_str(&mut out, cidr_string(c).as_str());
        string_push_str(&mut out, "\n");
        assert(a.take(i + 1).drop_last() =~= a.take(i as int));
    }
    assert(a.take(a.len() as int) =~= a);
    out
}

/// An interface that can be shown, as text (see `netif_text`).
pub fn netif_string(n: &Netif) -> (r: String)
    requires
        netif_showable(n@),
    ensures
        r@ == netif_text(n@),
{
    let mut out = netif_head_string(n);
    string_push_str(&mut out, netif_mid_string(n).as_str());
    string_push_str(&mut out, netif_sizes_string(n).as_str());
    string_push_str(&mut out, netif_tail_string(n).as_str());
    out
}

/// The interface in an answer: a map of its entries, if the answer starts
/// with one (`Some(None)` when it does not); `None` when an entry cannot be
/// read.
pub open spec fn netif_decoded(b: Seq<u8>) -> Option<Option<NetifView>> {
    match cbor_map(b, 0) {
        Some((_, p1)) => match netif_fields(b, p1, netif_default()) {
            Some((n, _)) => Some(Some(n)),
            None => None,
        },
        None => Some(None),
    }
}

/// Whether the interface in an answer can be read and shown.
pub open spec fn netif_answer_ok(b: Seq<u8>) -> bool {
    match netif_decoded(b) {
        Some(Some(n)) => netif_showable(n),
        Some(None) => true,
        None => false,
    }
}

/// The interface in an answer as text, with a newline after it; nothing
/// when the answer holds no map.
pub open spec fn netif_answer_text(b: Seq<u8>) -> Seq<char> {
    match netif_decoded(b) {
        Some(Some(n)) => netif_text(n) + "\n"@,
        _ => Seq::empty(),
    }
}

/// The interface in an answer that can be shown, as text (see
/// `netif_answer_text`).
pub fn decode_netif_into_string(data: &[u8]) -> (r: String)
    requires
        netif_answer_ok(data@),
    ensures
        r@ == netif_answer_text(data@),
{
    match crate::cbor::read_map(data, 0) {
        Some((_, p1)) => match Netif::from_cbor(data, p1) {
            Some((n, _)) => {
                let mut out = netif_string(&n);
                string_push_str(&mut out, "\n");
                out
            },
            None => String::new(),
        },
        None => String::new(),
    }
}

/// Whether the interface in an answer can be read and shown.
pub fn accepts_netif_answer(data: &[u8]) -> (r: bool)
    ensures
        r == netif_answer_ok(data@),
{
    match crate::cbor::read_map(data, 0) {
        Some((_, p1)) => match Netif::from_cbor(data, p1) {
            Some((n, _)) => {
                let mac_ok = match &n.mac {
                    Some(m) => m.data.len() > 0,
                    None => true,
                };
                if !mac_ok {
                    return false;
                }
                let mut i: usize = 0;
                while i < n.ipv6addr.len()
                    invariant
                        i <= n.ipv6addr@.len(),
                        netif_decoded(data@) == Some(Some(n@)),
                        n@.mac matches Some(m) ==> m.len() > 0,
                        forall|j: int| 0 <= j < i ==> (#[trigger] n@.ipv6addr[j]).addr.len() == 16,
                    decreases n.ipv6addr@.len() - i,
                {
                    assert(n@.ipv6addr[i as int] == n.ipv6addr@[i as int]@);
                    if n.ipv6addr[i].addr.len() != 16 {
                        return false;
                    }
                    i = i + 1;
                }
                true
            },
            None => false,
        },
        None => true,
    }
}

/// The interface names from `pos` on, appended to `acc`, for as long as a
/// text string comes.
pub open spec fn names_from(b: Seq<u8>, pos: int, acc: Seq<Seq<char>>) -> Seq<Seq<char>>
    decreases b.len() - pos,
{
    match cbor_str(b, pos) {
        Some((n, p)) => if pos < p <= b.len() {
            names_from(b, p, acc.push(n))
        } else {
            acc
        },
        None => acc,
    }
}

/// The interface names in a listing: an array of text strings.
pub open spec fn iface_names(b: Seq<u8>) -> Seq<Seq<char>> {
    match cbor_array(b, 0) {
        Some((_, p)) => names_from(b, p, Seq::empty()),
        None => Seq::empty(),
    }
}

/// The views of a list of strings.
pub open spec fn string_views(s: Seq<String>) -> Seq<Seq<char>> {
    s.map_values(|x: String| x@)
}

/// The interface names in a listing (see `iface_names`).
pub fn ifaces_from_cbor_list(cbor: &[u8]) -> (r: Vec<String>)
    ensures
        string_views(r@) == iface_names(cbor@),
{
    let mut ret: Vec<String> = Vec::new();
    let p0 = match crate::cbor::read_array(cbor, 0) {
        Some((_, p)) => p,
        None => {
            assert(string_views(ret@) =~= Seq::<Seq<char>>::empty());
            return ret;
        },
    };
    let mut p = p0;
    assert(string_views(ret@) =~= Seq::<Seq<char>>::empty());
    loop
        invariant
            p0 <= p <= cbor@.len(),
            iface_names(cbor@) == names_from(cbor@, p as int, string_views(ret@)),
        decreases cbor@.len() - p,
    {
        match crate::cbor::read_str(cbor, p) {
            Some((n, q)) => {
                if q <= p || q > cbor.len() {
                    return ret;
                }
                let ghost before = string_views(ret@);
                let ghost nv = n@;
                ret.push(n);
                assert(string_views(ret@) =~= before.push(nv));
                p = q;
            },
            None => return ret,
        }
    }
}

/// What the user asked of an interface.
pub enum IfconfigOperation {
    Up,
    Down,
    /// Set a setting (`addr_long` or `nid`) to a fixed test value.
    SetValue { key: String, value: String },
    /// Add an IPv6 address to the interface.
    Add { addr: Ipv6AddrCidr },
    /// Delete an IPv6 address from the interface.
    Del { addr: Ipv6AddrCidr },
}

/// An operation as a value.
pub enum OperationView {
    Up,
    Down,
    SetValue(Seq<char>),
    Add(CidrView),
    Del(CidrView),
}

impl View for IfconfigOperation {
    type V = OperationView;

    open spec fn view(&self) -> OperationView {
        match self {
            IfconfigOperation::Up => OperationView::Up,
            IfconfigOperation::Down => OperationView::Down,
            IfconfigOperation::SetValue { key, .. } => OperationView::SetValue(key@),
            IfconfigOperation::Add { addr } => OperationView::Add(addr@),
            IfconfigOperation::Del { addr } => OperationView::Del(addr@),
        }
    }
}

/// The arguments of `Ifconfig`: the interface, and what to do with it.
pub struct IfconfigCli {
    pub iface: Option<String>,
    pub operation: Option<IfconfigOperation>,
}

/// The encoding of an address: the IPv6 tag, then with the prefix length
/// an array of the sixteen bytes and the length, without it the bytes.
pub open spec fn cidr_encoding(c: CidrView, with_prefix: bool) -> Seq<u8> {
    if with_prefix {
        encode_head(6, TAG_IPV6 as nat) + encode_head(4, 2) + encode_head(2, c.addr.len()) + c.addr + encode_head(
            0,
            c.prefix as nat,
        )
    } else {
        encode_head(6, TAG_IPV6 as nat) + encode_head(2, c.addr.len()) + c.addr
    }
}

impl Ipv6AddrCidr {
    /// Appends the address (see `cidr_encoding`).
    pub fn into_cbor(&self, out: &mut Vec<u8>, with_prefix: bool)
        ensures
            final(out)@ == old(out)@ + cidr_encoding(self@, with_prefix),
    {
        let ghost start = out@;
        crate::cbor::put_tag(out, TAG_IPV6);
        if with_prefix {
            crate::cbor::put_array(out, 2);
            crate::cbor::put_bytes(out, self.addr.as_slice());
            crate::cbor::put_u8(out, self.prefix);
        } else {
            crate::cbor::put_bytes(out, self.addr.as_slice());
        }
        assert(out@ =~= start + cidr_encoding(self@, with_prefix));
    }

    /// Appends the address with its prefix length.
    pub fn into_cbor_with_prefix(&self, out: &mut Vec<u8>)
        ensures
            final(out)@ == old(out)@ + cidr_encoding(self@, true),
    {
        self.into_cbor(out, true);
    }

    /// Appends the address without its prefix length.
    pub fn into_cbor_without_prefix(&self, out: &mut Vec<u8>)
        ensures
            final(out)@ == old(out)@ + cidr_encoding(self@, false),
    {
        self.into_cbor(out, false);
    }
}

/// The body of a change to an interface: an array of one item, the
/// change; and the request method it goes with.
pub open spec fn operation_request(op: OperationView) -> (Method, Seq<u8>) {
    let start = encode_head(4, 1);
    match op {
        OperationView::Add(c) => (Method::Post, start + cidr_encoding(c, true)),
        OperationView::Del(c) => (Method::Patch, start + cidr_encoding(c, false)),
        OperationView::Up => (Method::Patch, start + encode_head(6, TAG_NETOPT_LINK as nat) + encode_bool(true)),
        OperationView::Down => (Method::Patch, start + encode_head(6, TAG_NETOPT_LINK as nat) + encode_bool(false)),
        OperationView::SetValue(key) => (
            Method::Patch,
            start + if key == "addr_long"@ {
                encode_head(6, TAG_NETOPT_ADDRESS_LONG as nat) + encode_head(2, 8) + Seq::new(8, |i: int| 0xffu8)
            } else {
                encode_head(6, TAG_NETOPT_NID as nat) + encode_head(0, 27)
            },
        ),
    }
}

/// Whether an operation can be sent: a setting must be one that is known.
pub open spec fn operation_ok(op: OperationView) -> bool {
    op matches OperationView::SetValue(key) ==> (key == "addr_long"@ || key == "nid"@)
}

/// The request for interface `iface` at `location`.
pub open spec fn iface_request(location: Seq<char>, iface: Seq<char>) -> RequestView {
    RequestView { method: Method::Get, path: location, query: Some("name="@ + iface), cbor: false, payload: Seq::empty() }
}

/// Shows or changes the device's network interfaces.
pub struct Ifconfig {
    location: String,
    buffer: String,
    payload: Vec<u8>,
    finished: bool,
    displayable: bool,
    cli: IfconfigCli,
    ifaces: Vec<String>,
}

/// The state of an `Ifconfig` handler as values.
pub struct IfconfigState {
    pub location: Seq<char>,
    pub buffer: Seq<char>,
    pub payload: Seq<u8>,
    pub finished: bool,
    pub displayable: bool,
    pub iface: Option<Seq<char>>,
    pub operation: Option<OperationView>,
    /// The interfaces still to be asked for; the last comes first.
    pub ifaces: Seq<Seq<char>>,
}

impl View for Ifconfig {
    type V = IfconfigState;

    closed spec fn view(&self) -> IfconfigState {
        IfconfigState {
            location: self.location@,
            buffer: self.buffer@,
            payload: self.payload@,
            finished: self.finished,
            displayable: self.displayable,
            iface: match self.cli.iface {
                Some(i) => Some(i@),
                None => None,
            },
            operation: match self.cli.operation {
                Some(o) => Some(o@),
                None => None,
            },
            ifaces: string_views(self.ifaces@),
        }
    }
}

/// The first request of a handler at `s`: without an interface a GET of
/// the listing; with one a CBOR request for it, a GET, or the change asked
/// for.
pub open spec fn ifconfig_first_request(s: IfconfigState) -> RequestView {
    match s.iface {
        Some(name) => match s.operation {
            Some(op) => RequestView {
                method: operation_request(op).0,
                path: s.location,
                query: Some("name="@ + name),
                cbor: true,
                payload: operation_request(op).1,
            },
            None => RequestView {
                method: Method::Get,
                path: s.location,
                query: Some("name="@ + name),
                cbor: true,
                payload: Seq::empty(),
            },
        },
        None => RequestView { method: Method::Get, path: s.location, query: None, cbor: false, payload: Seq::empty() },
    }
}

/// Whether a handler at `s` can take the answer `payload`: an interface it
/// lists must be readable and showable.
pub open spec fn ifconfig_accepts(s: IfconfigState, status_is_error: bool, payload: Seq<u8>) -> bool {
    s.operation is None && s.iface is Some && !status_is_error ==> netif_answer_ok(payload)
}

/// A handler at `s` after an answer, before it moves on: a failed change
/// is noted; an interface is shown, or why it could not be; a listing
/// gives the interfaces to ask for.
pub open spec fn ifconfig_read(s: IfconfigState, status_is_error: bool, status_name: Seq<char>, payload: Seq<u8>) -> IfconfigState {
    let s1 = IfconfigState { payload, ..s };
    match s.operation {
        Some(op) => if (op is Add || op is Del) && status_is_error {
            IfconfigState { buffer: s.buffer + "Couldn't add/del ip address\n"@, ..s1 }
        } else {
            s1
        },
        None => match s.iface {
            Some(_) => if status_is_error {
                IfconfigState { buffer: s.buffer + "Couldn't list the interface(s): "@ + status_name + "\n"@, ..s1 }
            } else {
                IfconfigState { buffer: s.buffer + netif_answer_text(payload) + "\n"@, ..s1 }
            },
            None => IfconfigState { ifaces: iface_names(payload), ..s1 },
        },
    }
}

/// A handler at `s` after an answer (see `ifconfig_read`): the next
/// interface to ask for, the last of those left, if any; otherwise it is
/// done.
pub open spec fn ifconfig_step(s: IfconfigState, status_is_error: bool, status_name: Seq<char>, payload: Seq<u8>) -> (Option<RequestView>, IfconfigState) {
    let s2 = ifconfig_read(s, status_is_error, status_name, payload);
    if s2.ifaces.len() > 0 {
        let next = s2.ifaces.last();
        (
            Some(iface_request(s2.location, next)),
            IfconfigState { iface: Some(next), ifaces: s2.ifaces.drop_last(), ..s2 },
        )
    } else {
        (None, IfconfigState { finished: true, displayable: true, ..s2 })
    }
}

impl Ifconfig {
    /// The command: `Ifconfig`, needing `/jelly/netif`.
    pub fn cmd() -> (r: Command)
        ensures
            r@.cmd == "Ifconfig"@,
            r@.required_endpoints == seq!["/jelly/netif"@],
            r@.kind == CommandKind::Ifconfig,
    {
        let mut eps: Vec<String> = Vec::new();
        eps.push("/jelly/netif".to_owned());
        let r = Command {
            cmd: "Ifconfig".to_owned(),
            description: "ifconfig over coap".to_owned(),
            required_endpoints: eps,
            kind: CommandKind::Ifconfig,
        };
        assert(r@.required_endpoints =~= seq!["/jelly/netif"@]);
        r
    }

    /// A handler for the command's first end-point and the arguments; an
    /// operation needs an interface.
    pub fn parse(cmd: &Command, cli: IfconfigCli) -> (r: Result<Self, String>)
        requires
            cmd@.required_endpoints.len() > 0,
        ensures
            (cli.operation is Some && cli.iface is None) <==> r is Err,
            r matches Err(e) ==> e@ == "a subcommand can only be used when an interface is given"@,
            r matches Ok(h) ==> h@ == (IfconfigState {
                location: cmd@.required_endpoints[0],
                buffer: Seq::empty(),
                payload: Seq::empty(),
                finished: false,
                displayable: false,
                iface: match cli.iface {
                    Some(i) => Some(i@),
                    None => None,
                },
                operation: match cli.operation {
                    Some(o) => Some(o@),
                    None => None,
                },
                ifaces: Seq::empty(),
            }),
    {
        if cli.operation.is_some() && cli.iface.is_none() {
            return Err("a subcommand can only be used when an interface is given".to_owned());
        }
        let r = Self {
            location: cmd.required_endpoints[0].clone(),
            buffer: String::new(),
            payload: Vec::new(),
            finished: false,
            displayable: false,
            cli,
            ifaces: Vec::new(),
        };
        assert(r@.payload =~= Seq::<u8>::empty());
        assert(r@.ifaces =~= Seq::<Seq<char>>::empty());
        Ok(r)
    }

    /// Whether the first request can be made: a setting must be known and
    /// an address sixteen bytes long.
    pub fn can_start(&self) -> (r: bool)
        ensures
            r == (self@.operation matches Some(op) ==> operation_ok(op) && match op {
                OperationView::Add(c) => c.addr.len() == 16,
                OperationView::Del(c) => c.addr.len() == 16,
                _ => true,
            }),
    {
        match &self.cli.operation {
            Some(IfconfigOperation::SetValue { key, .. }) => {
                let k = crate::text::chars_of(key.as_str());
                let a = crate::text::chars_of("addr_long");
                let n = crate::text::chars_of("nid");
                crate::text::chars_equal(k.as_slice(), a.as_slice()) || crate::text::chars_equal(
                    k.as_slice(),
                    n.as_slice(),
                )
            },
            Some(IfconfigOperation::Add { addr }) => addr.addr.len() == 16,
            Some(IfconfigOperation::Del { addr }) => addr.addr.len() == 16,
            _ => true,
        }
    }

    /// The first request (see `ifconfig_first_request`).
    pub fn init(&mut self) -> (r: RequestPlan)
        requires
            old(self)@.operation matches Some(op) ==> operation_ok(op),
        ensures
            r@ == ifconfig_first_request(old(self)@),
            final(self)@ == old(self)@,
    {
        match &self.cli.iface {
            Some(iface_id) => {
                let mut query = "name=".to_owned();
                string_push_str(&mut query, iface_id.as_str());
                let mut buffer: Vec<u8> = Vec::new();
                let method = match &self.cli.operation {
                    Some(operation) => {
                        crate::cbor::put_array(&mut buffer, 1);
                        match operation {
                            IfconfigOperation::Add { addr } => {
                                addr.into_cbor_with_prefix(&mut buffer);
                                Method::Post
                            },
                            IfconfigOperation::Del { addr } => {
                                addr.into_cbor_without_prefix(&mut buffer);
                                Method::Patch
                            },
                            IfconfigOperation::Up => {
                                crate::cbor::put_tag(&mut buffer, TAG_NETOPT_LINK);
                                crate::cbor::put_bool(&mut buffer, true);
                                Method::Patch
                            },
                            IfconfigOperation::Down => {
                                crate::cbor::put_tag(&mut buffer, TAG_NETOPT_LINK);
                                crate::cbor::put_bool(&mut buffer, false);
                                Method::Patch
                            },
                            IfconfigOperation::SetValue { key, .. } => {
                                let k = crate::text::chars_of(key.as_str());
                                let a = crate::text::chars_of("addr_long");
                                if crate::text::chars_equal(k.as_slice(), a.as_slice()) {
                                    let bytes: Vec<u8> = vec![0xff, 0xff, 0xff, 0xff, 0xff, 0xff, 0xff, 0xff];
                                    assert(bytes@ =~= Seq::new(8, |i: int| 0xffu8));
                                    crate::cbor::put_tag(&mut buffer, TAG_NETOPT_ADDRESS_LONG);
                                    crate::cbor::put_bytes(&mut buffer, bytes.as_slice());
                                } else {
                                    crate::cbor::put_tag(&mut buffer, TAG_NETOPT_NID);
                                    crate::cbor::put_u16(&mut buffer, 27);
                                }
                                Method::Patch
                            },
                        }
                    },
                    None => Method::Get,
                };
                let path = self.location.clone();
                let r = RequestPlan { method, path, query: Some(query), cbor: true, payload: buffer };
                proof {
                    match self@.operation {
                        Some(op) => {
                            assert(r@.payload =~= operation_request(op).1);
                        },
                        None => {
                            assert(r@.payload =~= Seq::<u8>::empty());
                        },
                    }
                }
                r
            },
            None => RequestPlan::get(self.location.as_str()),
        }
    }

    /// Takes the answer, whose status `status_name` is an error or not (see
    /// `ifconfig_step`).
    pub fn handle(&mut self, status_is_error: bool, status_name: &str, payload: &[u8]) -> (r: Option<RequestPlan>)
        requires
            ifconfig_accepts(old(self)@, status_is_error, payload@),
        ensures
            match ifconfig_step(old(self)@, status_is_error, status_name@, payload@) {
                (Some(q), n) => r matches Some(p) && p@ == q && final(self)@ == n,
                (None, n) => r is None && final(self)@ == n,
            },
    {
        self.payload = crate::seqs::copy_bytes(payload);
        match &self.cli.operation {
            Some(operation) => {
                let add_del = match operation {
                    IfconfigOperation::Add { .. } => true,
                    IfconfigOperation::Del { .. } => true,
                    _ => false,
                };
                if add_del && status_is_error {
                    string_push_str(&mut self.buffer, "Couldn't add/del ip address\n");
                }
            },
            None => {
                if self.cli.iface.is_some() {
                    if status_is_error {
                        string_push_str(&mut self.buffer, "Couldn't list the interface(s): ");
                        string_push_str(&mut self.buffer, status_name);
                        string_push_str(&mut self.buffer, "\n");
                    } else {
                        let text = decode_netif_into_string(payload);
                        string_push_str(&mut self.buffer, text.as_str());
                        string_push_str(&mut self.buffer, "\n");
                    }
                } else {
                    self.ifaces = ifaces_from_cbor_list(payload);
                }
            },
        }
        let ghost mid = self@;
        match self.ifaces.pop() {
            Some(iface) => {
                assert(string_views(self.ifaces@) =~= mid.ifaces.drop_last());
                let mut query = "name=".to_owned();
                string_push_str(&mut query, iface.as_str());
                let path = self.location.clone();
                self.cli.iface = Some(iface);
                Some(RequestPlan { method: Method::Get, path, query: Some(query), cbor: false, payload: Vec::new() })
            },
            None => {
                self.finished = true;
                self.displayable = true;
                None
            },
        }
    }

    /// Whether the handler can take an answer (see `ifconfig_accepts`).
    pub fn accepts(&self, status_is_error: bool, payload: &[u8]) -> (r: bool)
        ensures
            r == ifconfig_accepts(self@, status_is_error, payload@),
    {
        if self.cli.operation.is_none() && self.cli.iface.is_some() && !status_is_error {
            accepts_netif_answer(payload)
        } else {
            true
        }
    }

    pub fn want_display(&self) -> (r: bool)
        ensures
            r == self@.displayable,
    {
        self.displayable
    }

    pub fn is_finished(&self) -> (r: bool)
        ensures
            r == self@.finished,
    {
        self.finished
    }

    /// Writes the kept text and a newline into `buffer`.
    pub fn display(&self, buffer: &mut String)
        ensures
            final(buffer)@ == old(buffer)@ + self@.buffer.push('\n'),
    {
        buffer.append(self.buffer.as_str());
        crate::text::string_push(buffer, '\n');
    }

    /// The last answer as it came.
    pub fn export(&self) -> (r: Vec<u8>)
        ensures
            r@ == self@.payload,
    {
        self.payload.clone()
    }
}

} // verus!
