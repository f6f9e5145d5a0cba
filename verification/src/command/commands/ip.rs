//! The interface listing of the earlier `/.well-known/ifconfig` format: an
//! array of interfaces, each an array of tagged entries whose tag numbers
//! name the setting.  Read into the same interfaces the current format
//! gives, and shown the same way.

use vstd::prelude::*;

use super::ifconfig::cidr_at;
use super::ifconfig::eui64_of;
use super::ifconfig::flags_set;
use super::ifconfig::ieee_set;
use super::ifconfig::netif_default;
use super::ifconfig::netif_showable;
use super::ifconfig::netif_string;
use super::ifconfig::netif_text;
use super::ifconfig::Eui64;
use super::ifconfig::Ieee802154;
use super::ifconfig::Ipv6AddrCidr;
use super::ifconfig::Netif;
use super::ifconfig::NetifFlags;
use super::ifconfig::NetifView;
use super::ifconfig::cidr_views;
use crate::cbor::cbor_array;
use crate::cbor::cbor_bool;
use crate::cbor::cbor_bytes;
use crate::cbor::cbor_i16;
use crate::cbor::cbor_skip_end;
use crate::cbor::cbor_str;
use crate::cbor::cbor_tag;
use crate::cbor::cbor_u16;
use crate::cbor::cbor_u32;
use crate::cbor::cbor_u8;
use crate::cbor::is_break;
use crate::text::string_push_str;

verus! {

/// The tag of an interface's name.
pub const TAG_NAME: u64 = 20;

/// The tag of a hardware address (IANA's EUI-64 tag).
pub const TAG_MAC: u64 = 48;

/// The tag of an IPv6 address (IANA's).
pub const TAG_ADDRESS: u64 = 54;

/// The tag of the IEEE 802.15.4 settings.
pub const TAG_IEEE802154: u64 = 325;

/// The first of the IEEE 802.15.4 setting tags, and the last.
pub const TAG_IEEE_FIRST: u64 = 314;
pub const TAG_IEEE_LAST: u64 = 324;

/// The first of the flag tags, and the last.
pub const TAG_FLAG_FIRST: u64 = 326;
pub const TAG_FLAG_LAST: u64 = 342;

/// The IEEE 802.15.4 settings from `pos` on: each a tag and, for the
/// eleven setting tags, a 32-bit number; the item after any other tag is
/// skipped.  `None` when an item cannot be read.
pub open spec fn ieee_tagged_entries(b: Seq<u8>, pos: int, s: Ieee802154) -> Option<(Ieee802154, int)>
    decreases b.len() - pos,
{
    match cbor_tag(b, pos) {
        None => Some((s, pos)),
        Some((tag, p1)) => if TAG_IEEE_FIRST <= tag <= TAG_IEEE_LAST {
            match cbor_u32(b, p1) {
                Some((v, p2)) => if pos < p2 <= b.len() {
                    ieee_tagged_entries(b, p2, ieee_set(s, (tag - TAG_IEEE_FIRST) as u64, v))
                } else {
                    None
                },
                None => None,
            }
        } else {
            match cbor_skip_end(b, p1) {
                Some(p2) => if pos < p2 <= b.len() {
                    ieee_tagged_entries(b, p2, s)
                } else {
                    None
                },
                None => None,
            }
        },
    }
}

/// The IEEE 802.15.4 settings at `pos`: an array of entries, after which
/// one more item (its end) is skipped; no setting, and nothing read, when
/// no array starts there.
pub open spec fn ieee_tagged_at(b: Seq<u8>, pos: int) -> Option<(Ieee802154, int)> {
    match cbor_array(b, pos) {
        None => Some((Ieee802154::empty(), pos)),
        Some((_, p1)) => match ieee_tagged_entries(b, p1, Ieee802154::empty()) {
            Some((s, p2)) => match cbor_skip_end(b, p2) {
                Some(p3) => Some((s, p3)),
                None => None,
            },
            None => None,
        },
    }
}

/// One entry of an interface, whose tag `tag` was read and whose value
/// starts at `pos`: the interface with it set, and where the entry ends.
/// A hardware address must be eight bytes long.  Entries with other tags
/// are skipped.
pub open spec fn iface_step(b: Seq<u8>, pos: int, tag: u64, me: NetifView) -> Option<(NetifView, int)> {
    if tag == TAG_NAME {
        match cbor_str(b, pos) {
            Some((n, p)) => Some((NetifView { name: n, ..me }, p)),
            None => None,
        }
    } else if tag == TAG_MAC {
        match cbor_bytes(b, pos) {
            Some((d, p)) => if d.len() == 8 {
                Some((NetifView { mac: Some(eui64_of(d)), ..me }, p))
            } else {
                None
            },
            None => None,
        }
    } else if tag == TAG_ADDRESS {
        match cidr_at(b, pos) {
            Some((c, p)) => Some((NetifView { ipv6addr: me.ipv6addr.push(c), ..me }, p)),
            None => None,
        }
    } else if tag == 302 {
        match cbor_bool(b, pos) {
            Some((v, p)) => Some((NetifView { wired: v, ..me }, p)),
            None => None,
        }
    } else if tag == 304 {
        match cbor_u16(b, pos) {
            Some((v, p)) => Some((NetifView { channel: Some(v), ..me }, p)),
            None => None,
        }
    } else if tag == 305 {
        match cbor_u32(b, pos) {
            Some((v, p)) => Some((NetifView { channel_frequency: Some(v), ..me }, p)),
            None => None,
        }
    } else if tag == 306 {
        match cbor_u16(b, pos) {
            Some((v, p)) => Some((NetifView { channel_page: Some(v), ..me }, p)),
            None => None,
        }
    } else if tag == 307 {
        match cbor_u16(b, pos) {
            Some((v, p)) => Some((NetifView { network_id: Some(v), ..me }, p)),
            None => None,
        }
    } else if tag == 308 {
        match cbor_i16(b, pos) {
            Some((v, p)) => Some((NetifView { rssi: Some(v), ..me }, p)),
            None => None,
        }
    } else if tag == 309 {
        match cbor_bool(b, pos) {
            Some((v, p)) => Some((NetifView { link: Some(v), ..me }, p)),
            None => None,
        }
    } else if tag == 310 {
        match cbor_u16(b, pos) {
            Some((v, p)) => Some((NetifView { tx_power: Some(v), ..me }, p)),
            None => None,
        }
    } else if tag == 311 {
        match cbor_u32(b, pos) {
            Some((v, p)) => Some((NetifView { state: Some(v), ..me }, p)),
            None => None,
        }
    } else if tag == 312 {
        match cbor_u8(b, pos) {
            Some((v, p)) => Some((NetifView { retrans: Some(v), ..me }, p)),
            None => None,
        }
    } else if tag == 313 {
        match cbor_u8(b, pos) {
            Some((v, p)) => Some((NetifView { csma_retries: Some(v), ..me }, p)),
            None => None,
        }
    } else if tag == TAG_IEEE802154 {
        match ieee_tagged_at(b, pos) {
            Some((v, p)) => Some((NetifView { ieee802154: Some(v), ..me }, p)),
            None => None,
        }
    } else if TAG_FLAG_FIRST <= tag <= TAG_FLAG_LAST {
        match cbor_bool(b, pos) {
            Some((v, p)) => Some((
                NetifView { netif_flags: flags_set(me.netif_flags, (tag - TAG_FLAG_FIRST) as u64, v), ..me },
                p,
            )),
            None => None,
        }
    } else if tag == 343 {
        match cbor_u16(b, pos) {
            Some((v, p)) => Some((NetifView { l2_pdu: Some(v), ..me }, p)),
            None => None,
        }
    } else if tag == 344 {
        match cbor_u16(b, pos) {
            Some((v, p)) => Some((NetifView { mtu: Some(v), ..me }, p)),
            None => None,
        }
    } else if tag == 345 {
        match cbor_u8(b, pos) {
            Some((v, p)) => Some((NetifView { hop_limit: Some(v), ..me }, p)),
            None => None,
        }
    } else {
        match cbor_skip_end(b, pos) {
            Some(p) => Some((me, p)),
            None => None,
        }
    }
}

/// The entries of an interface from `pos` on, set onto `me`, for as long
/// as a tag comes; `None` when one cannot be read.
pub open spec fn iface_fields(b: Seq<u8>, pos: int, me: NetifView) -> Option<(NetifView, int)>
    decreases b.len() - pos,
{
    match cbor_tag(b, pos) {
        None => Some((me, pos)),
        Some((tag, p1)) => match iface_step(b, p1, tag, me) {
            Some((n, p2)) => if pos < p2 <= b.len() {
                iface_fields(b, p2, n)
            } else {
                None
            },
            None => None,
        },
    }
}

/// The interfaces from `pos` on, after `acc`: each an array of entries
/// (see `iface_fields`, from `netif_default`), closed by a break byte if
/// one follows, for as long as an array comes.
pub open spec fn iface_list(b: Seq<u8>, pos: int, acc: Seq<NetifView>) -> Option<Seq<NetifView>>
    decreases b.len() - pos,
{
    match cbor_array(b, pos) {
        None => Some(acc),
        Some((_, p1)) => match iface_fields(b, p1, netif_default()) {
            Some((n, p2)) => {
                let p3 = if is_break(b, p2) {
                    p2 + 1
                } else {
                    p2
                };
                if pos < p3 <= b.len() {
                    iface_list(b, p3, acc.push(n))
                } else {
                    None
                }
            },
            None => None,
        },
    }
}

/// The interfaces of a listing: an array of interfaces (see `iface_list`);
/// `None` when the listing is no array or an interface cannot be read.
pub open spec fn ifaces_decoded(b: Seq<u8>) -> Option<Seq<NetifView>> {
    match cbor_array(b, 0) {
        Some((_, p1)) => iface_list(b, p1, Seq::empty()),
        None => None,
    }
}

/// The interfaces as text, each followed by a newline.
pub open spec fn ifaces_text(l: Seq<NetifView>) -> Seq<char>
    decreases l.len(),
{
    if l.len() == 0 {
        Seq::empty()
    } else {
        ifaces_text(l.drop_last()) + netif_text(l.last()) + "\n"@
    }
}

/// An entry keeps an interface showable: hardware addresses are eight
/// bytes long, and addresses sixteen.
pub proof fn lemma_iface_step_showable(b: Seq<u8>, pos: int, tag: u64, me: NetifView)
    requires
        netif_showable(me),
    ensures
        iface_step(b, pos, tag, me) matches Some((n, _)) ==> netif_showable(n),
{
    if tag == TAG_ADDRESS {
        if let Some((c, p)) = cidr_at(b, pos) {
            let n = NetifView { ipv6addr: me.ipv6addr.push(c), ..me };
            assert forall|i: int| 0 <= i < n.ipv6addr.len() implies (#[trigger] n.ipv6addr[i]).addr.len() == 16 by {
                if i < me.ipv6addr.len() {
                    assert(n.ipv6addr[i] == me.ipv6addr[i]);
                }
            }
        }
    }
}

/// The entries of an interface keep it showable.
pub proof fn lemma_iface_fields_showable(b: Seq<u8>, pos: int, me: NetifView)
    requires
        netif_showable(me),
    ensures
        iface_fields(b, pos, me) matches Some((n, _)) ==> netif_showable(n),
    decreases b.len() - pos,
{
    if let Some((tag, p1)) = cbor_tag(b, pos) {
        lemma_iface_step_showable(b, p1, tag, me);
        if let Some((n, p2)) = iface_step(b, p1, tag, me) {
            if pos < p2 <= b.len() {
                lemma_iface_fields_showable(b, p2, n);
            }
        }
    }
}

/// Reads the IEEE 802.15.4 settings at `pos` (see `ieee_tagged_at`).
pub fn ieee_tagged_from_cbor(b: &[u8], pos: usize) -> (r: Option<(Ieee802154, usize)>)
    ensures
        match ieee_tagged_at(b@, pos as int) {
            Some((s, next)) => r matches Some((got, end)) && got == s && end as int == next,
            None => r is None,
        },
{
    let mut s = Ieee802154 {
        phy: None,
        oqpsk_rate: None,
        mr_oqpsk_chips: None,
        mr_oqpsk_rate: None,
        mr_ofdm_option: None,
        mr_ofdm_mcs: None,
        mr_fsk_modulation_index: None,
        mr_fsk_modulation_order: None,
        mr_fsk_srate: None,
        mr_fsk_fec: None,
        channel_spacing: None,
    };
    let p1 = match crate::cbor::read_array(b, pos) {
        Some((_, p)) => p,
        None => return Some((s, pos)),
    };
    let mut p = p1;
    loop
        invariant
            p1 <= p <= b.len(),
            ieee_tagged_entries(b@, p1 as int, Ieee802154::empty()) == ieee_tagged_entries(b@, p as int, s),
            ieee_tagged_at(b@, pos as int) == match ieee_tagged_entries(b@, p1 as int, Ieee802154::empty()) {
                Some((s2, p2)) => match cbor_skip_end(b@, p2) {
                    Some(p3) => Some((s2, p3)),
                    None => None,
                },
                None => None,
            },
        ensures
            p1 <= p <= b.len(),
            cbor_tag(b@, p as int) is None,
        decreases b.len() - p,
    {
        let (t, q1) = crate::cbor::try_tag(b, p);
        let tag = match t {
            Some(x) => x,
            None => break,
        };
        if TAG_IEEE_FIRST <= tag && tag <= TAG_IEEE_LAST {
            match crate::cbor::read_u32(b, q1) {
                Some((v, q2)) => {
                    if q2 <= p || q2 > b.len() {
                        return None;
                    }
                    super::ifconfig::ieee_set_exec(&mut s, tag - TAG_IEEE_FIRST, v);
                    p = q2;
                },
                None => return None,
            }
        } else {
            match crate::cbor::skip_item(b, q1) {
                Some(q2) => {
                    if q2 <= p || q2 > b.len() {
                        return None;
                    }
                    p = q2;
                },
                None => return None,
            }
        }
    }
    match crate::cbor::skip_item(b, p) {
        Some(p3) => Some((s, p3)),
        None => None,
    }
}

/// Reads one entry into `me` (see `iface_step`).
fn iface_step_exec(me: &mut Netif, b: &[u8], pos: usize, tag: u64) -> (r: Option<usize>)
    ensures
        match iface_step(b@, pos as int, tag, old(me)@) {
            Some((n, next)) => r matches Some(end) && end as int == next && final(me)@ == n,
            None => r is None,
        },
{
    if tag == TAG_NAME {
        match crate::cbor::read_str(b, pos) {
            Some((n, p)) => {
                me.name = n;
                Some(p)
            },
            None => None,
        }
    } else if tag == TAG_MAC {
        match crate::cbor::read_bytes(b, pos) {
            Some((d, p)) => if d.len() == 8 {
                me.mac = Some(Eui64::new(d.as_slice()));
                Some(p)
            } else {
                None
            },
            None => None,
        }
    } else if tag == TAG_ADDRESS {
        match Ipv6AddrCidr::from_cbor(b, pos) {
            Some((c, p)) => {
                let ghost before = cidr_views(me.ipv6addr@);
                let ghost cv = c@;
                me.ipv6addr.push(c);
                assert(cidr_views(me.ipv6addr@) =~= before.push(cv));
                Some(p)
            },
            None => None,
        }
    } else if tag == 302 || tag == 309 || (TAG_FLAG_FIRST <= tag && tag <= TAG_FLAG_LAST) {
        match crate::cbor::read_bool(b, pos) {
            Some((v, p)) => {
                if tag == 302 {
                    me.wired = v;
                } else if tag == 309 {
                    me.link = Some(v);
                } else {
                    super::ifconfig::flags_set_exec(&mut me.netif_flags, tag - TAG_FLAG_FIRST, v);
                }
                Some(p)
            },
            None => None,
        }
    } else if tag == 304 || tag == 306 || tag == 307 || tag == 310 || tag == 343 || tag == 344 {
        match crate::cbor::read_u16(b, pos) {
            Some((v, p)) => {
                if tag == 304 {
                    me.channel = Some(v);
                } else if tag == 306 {
                    me.channel_page = Some(v);
                } else if tag == 307 {
                    me.network_id = Some(v);
                } else if tag == 310 {
                    me.tx_power = Some(v);
                } else if tag == 343 {
                    me.l2_pdu = Some(v);
                } else {
                    me.mtu = Some(v);
                }
                Some(p)
            },
            None => None,
        }
    } else if tag == 305 || tag == 311 {
        match crate::cbor::read_u32(b, pos) {
            Some((v, p)) => {
                if tag == 305 {
                    me.channel_frequency = Some(v);
                } else {
                    me.state = Some(v);
                }
                Some(p)
            },
            None => None,
        }
    } else if tag == 308 {
        match crate::cbor::read_i16(b, pos) {
            Some((v, p)) => {
                me.rssi = Some(v);
                Some(p)
            },
            None => None,
        }
    } else if tag == 312 || tag == 313 || tag == 345 {
        match crate::cbor::read_u8(b, pos) {
            Some((v, p)) => {
                if tag == 312 {
                    me.retrans = Some(v);
                } else if tag == 313 {
                    me.csma_retries = Some(v);
                } else {
                    me.hop_limit = Some(v);
                }
                Some(p)
            },
            None => None,
        }
    } else if tag == TAG_IEEE802154 {
        match ieee_tagged_from_cbor(b, pos) {
            Some((v, p)) => {
                me.ieee802154 = Some(v);
                Some(p)
            },
            None => None,
        }
    } else {
        crate::cbor::skip_item(b, pos)
    }
}

/// An interface before anything is read (see `netif_default`).
fn netif_new() -> (r: Netif)
    ensures
        r@ == netif_default(),
{
    let r = Netif {
        name: "NoName".to_owned(),
        mac: None,
        ipv6addr: Vec::new(),
        wired: true,
        channel: None,
        channel_frequency: None,
        channel_page: None,
        network_id: None,
        rssi: None,
        link: None,
        tx_power: None,
        state: None,
        retrans: None,
        csma_retries: None,
        l2_pdu: None,
        mtu: None,
        hop_limit: None,
        ieee802154: None,
        netif_flags: NetifFlags {
            promisc: None,
            autoack: None,
            ack_req: None,
            preload: None,
            rawmode: None,
            mac_no_sleep: None,
            csma: None,
            autocca: None,
            iq_invert: None,
            rx_single: None,
            chan_hop: None,
            otaa: None,
            rtr: None,
            rtr_adv: None,
            sixlo: None,
            abr: None,
            iphc: None,
        },
        lora: None,
    };
    assert(cidr_views(r.ipv6addr@) =~= Seq::<super::ifconfig::CidrView>::empty());
    r
}

/// Reads an interface's entries from `pos` on (see `iface_fields`),
/// starting from `netif_default`; where they end.
pub fn iface_from_cbor(b: &[u8], pos: usize) -> (r: Option<(Netif, usize)>)
    ensures
        match iface_fields(b@, pos as int, netif_default()) {
            Some((n, next)) => r matches Some((got, end)) && got@ == n && end as int == next,
            None => r is None,
        },
{
    let mut me = netif_new();
    let mut p = pos;
    if p > b.len() {
        return Some((me, p));
    }
    loop
        invariant
            p <= b.len(),
            iface_fields(b@, pos as int, netif_default()) == iface_fields(b@, p as int, me@),
        decreases b.len() - p,
    {
        let (t, p1) = crate::cbor::try_tag(b, p);
        let tag = match t {
            Some(x) => x,
            None => return Some((me, p)),
        };
        match iface_step_exec(&mut me, b, p1, tag) {
            Some(p2) => {
                if p2 <= p || p2 > b.len() {
                    return None;
                }
                p = p2;
            },
            None => return None,
        }
    }
}

/// A listing as text (see `ifaces_text`), or `None` where it cannot be
/// read (see `ifaces_decoded`).
pub fn decode_netif_list_into_string(data: &[u8]) -> (r: Option<String>)
    ensures
        match ifaces_decoded(data@) {
            Some(l) => r matches Some(s) && s@ == ifaces_text(l),
            None => r is None,
        },
{
    let p1 = match crate::cbor::read_array(data, 0) {
        Some((_, p)) => p,
        None => return None,
    };
    let mut out = String::new();
    let ghost mut acc: Seq<NetifView> = Seq::empty();
    let mut p = p1;
    loop
        invariant
            p <= data.len(),
            ifaces_decoded(data@) == iface_list(data@, p as int, acc),
            out@ == ifaces_text(acc),
            forall|i: int| 0 <= i < acc.len() ==> netif_showable(#[trigger] acc[i]),
        decreases data.len() - p,
    {
        let q1 = match crate::cbor::read_array(data, p) {
            Some((_, q)) => q,
            None => {
                return Some(out);
            },
        };
        proof {
            crate::cbor::lemma_head_advances(data@, p as int);
            lemma_iface_fields_showable(data@, q1 as int, netif_default());
        }
        match iface_from_cbor(data, q1) {
            Some((n, q2)) => {
                let q3 = if q2 < data.len() && data[q2] == 0xff {
                    q2 + 1
                } else {
                    q2
                };
                if q3 <= p || q3 > data.len() {
                    return None;
                }
                string_push_str(&mut out, netif_string(&n).as_str());
                string_push_str(&mut out, "\n");
                proof {
                    let old_acc = acc;
                    acc = acc.push(n@);
                    assert(acc.drop_last() =~= old_acc);
                }
                p = q3;
            },
            None => return None,
        }
    }
}

} // verus!
