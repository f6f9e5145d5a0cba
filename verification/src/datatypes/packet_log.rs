//! The log of IP packets passed between the host and the node, each with a
//! one-line summary of its header.

use vstd::prelude::*;

use pnet_packet::Packet;

use crate::columns::align_right;
use crate::command::commands::ifconfig::ipv6_display;
use crate::numfmt::digits;
use crate::text::string_push_str;

verus! {

/// What pnet's `Ipv6Packet` reads of an IPv6 packet: its source and
/// destination addresses, next header, hop limit, payload length field and
/// payload; `None` when the bytes are too short for the header.
pub uninterp spec fn ipv6_fields(packet: Seq<u8>) -> Option<(Seq<u8>, Seq<u8>, u8, u8, u16, Seq<u8>)>;

/// What pnet's `Ipv4Packet` reads of an IPv4 packet: its source and
/// destination addresses, protocol, time to live, total length field and
/// payload; `None` when the bytes are too short for the header.
pub uninterp spec fn ipv4_fields(packet: Seq<u8>) -> Option<(Seq<u8>, Seq<u8>, u8, u8, u16, Seq<u8>)>;

/// The name pnet's `IpNextHeaderProtocol` shows for a protocol number.
pub uninterp spec fn protocol_name(number: u8) -> Seq<char>;

/// What std's `Display` writes for the IPv4 address of these four bytes:
/// the dot-decimal notation, such as `192.168.1.2`.
pub open spec fn ipv4_display(addr: Seq<u8>) -> Seq<char> {
    digits(addr[0] as nat, 10) + "."@ + digits(addr[1] as nat, 10) + "."@ + digits(addr[2] as nat, 10) + "."@
        + digits(addr[3] as nat, 10)
}

/// The type pnet's `Icmpv6Packet` reads of an ICMPv6 message; `None` when
/// the bytes are too short for its header.
pub uninterp spec fn control_type_v6(payload: Seq<u8>) -> Option<u8>;

/// The type pnet's `IcmpPacket` reads of an ICMP message; `None` when the
/// bytes are too short for its header.
pub uninterp spec fn control_type_v4(payload: Seq<u8>) -> Option<u8>;

/// The destination port pnet's `TcpPacket` reads of a TCP segment; `None`
/// when the bytes are too short for its header.
pub uninterp spec fn tcp_destination(payload: Seq<u8>) -> Option<u16>;

/// The destination port pnet's `UdpPacket` reads of a UDP datagram; `None`
/// when the bytes are too short for its header.
pub uninterp spec fn udp_destination(payload: Seq<u8>) -> Option<u16>;

/// Reads an IPv6 header (pnet's `Ipv6Packet::new` and its getters; see
/// `ipv6_fields`); the addresses are sixteen bytes long (`Ipv6Addr::octets`).
#[verifier::external_body]
fn read_ipv6(packet: &[u8]) -> (r: Option<(Vec<u8>, Vec<u8>, u8, u8, u16, Vec<u8>)>)
    ensures
        r matches Some((s, d, _, _, _, _)) ==> s@.len() == 16 && d@.len() == 16,
        match ipv6_fields(packet@) {
            Some((s, d, p, t, l, pl)) => r matches Some((rs, rd, rp, rt, rl, rpl)) && rs@ == s && rd@ == d && rp == p
                && rt == t && rl == l && rpl@ == pl,
            None => r is None,
        },
{
    pnet_packet::ipv6::Ipv6Packet::new(packet).map(|p| (
        p.get_source().octets().to_vec(),
        p.get_destination().octets().to_vec(),
        p.get_next_header().0,
        p.get_hop_limit(),
        p.get_payload_length(),
        p.payload().to_vec(),
    ))
}

/// Reads an IPv4 header (pnet's `Ipv4Packet::new` and its getters; see
/// `ipv4_fields`); the addresses are four bytes long (`Ipv4Addr::octets`).
#[verifier::external_body]
fn read_ipv4(packet: &[u8]) -> (r: Option<(Vec<u8>, Vec<u8>, u8, u8, u16, Vec<u8>)>)
    ensures
        r matches Some((s, d, _, _, _, _)) ==> s@.len() == 4 && d@.len() == 4,
        match ipv4_fields(packet@) {
            Some((s, d, p, t, l, pl)) => r matches Some((rs, rd, rp, rt, rl, rpl)) && rs@ == s && rd@ == d && rp == p
                && rt == t && rl == l && rpl@ == pl,
            None => r is None,
        },
{
    pnet_packet::ipv4::Ipv4Packet::new(packet).map(|p| (
        p.get_source().octets().to_vec(),
        p.get_destination().octets().to_vec(),
        p.get_next_level_protocol().0,
        p.get_ttl(),
        p.get_total_length(),
        p.payload().to_vec(),
    ))
}

/// The name of a protocol (pnet's `IpNextHeaderProtocol` and its
/// `Display`; see `protocol_name`).
#[verifier::external_body]
fn protocol_string(number: u8) -> (r: String)
    ensures
        r@ == protocol_name(number),
{
    pnet_packet::ip::IpNextHeaderProtocol::new(number).to_string()
}

/// An IPv4 address of four bytes in dot-decimal notation, as std's
/// `Ipv4Addr` shows it (see `ipv4_display`).
pub(crate) fn ipv4_string(addr: &[u8]) -> (r: String)
    requires
        addr@.len() == 4,
    ensures
        r@ == ipv4_display(addr@),
{
    let mut out = crate::numfmt::decimal(addr[0] as u64);
    crate::text::string_push_str(&mut out, ".");
    crate::text::string_push_str(&mut out, crate::numfmt::decimal(addr[1] as u64).as_str());
    crate::text::string_push_str(&mut out, ".");
    crate::text::string_push_str(&mut out, crate::numfmt::decimal(addr[2] as u64).as_str());
    crate::text::string_push_str(&mut out, ".");
    crate::text::string_push_str(&mut out, crate::numfmt::decimal(addr[3] as u64).as_str());
    out
}

/// The type of an ICMPv6 message (pnet's `Icmpv6Packet`; see
/// `control_type_v6`).
#[verifier::external_body]
fn read_control_type_v6(payload: &[u8]) -> (r: Option<u8>)
    ensures
        r == control_type_v6(payload@),
{
    pnet_packet::icmpv6::Icmpv6Packet::new(payload).map(|p| p.get_icmpv6_type().0)
}

/// The type of an ICMP message (pnet's `IcmpPacket`; see `control_type_v4`).
#[verifier::external_body]
fn read_control_type_v4(payload: &[u8]) -> (r: Option<u8>)
    ensures
        r == control_type_v4(payload@),
{
    pnet_packet::icmp::IcmpPacket::new(payload).map(|p| p.get_icmp_type().0)
}

/// The destination port of a TCP segment (pnet's `TcpPacket`; see
/// `tcp_destination`).
#[verifier::external_body]
fn read_tcp_destination(payload: &[u8]) -> (r: Option<u16>)
    ensures
        r == tcp_destination(payload@),
{
    pnet_packet::tcp::TcpPacket::new(payload).map(|p| p.get_destination())
}

/// The destination port of a UDP datagram (pnet's `UdpPacket`; see
/// `udp_destination`).
#[verifier::external_body]
fn read_udp_destination(payload: &[u8]) -> (r: Option<u16>)
    ensures
        r == udp_destination(payload@),
{
    pnet_packet::udp::UdpPacket::new(payload).map(|p| p.get_destination())
}

/// The protocol numbers the summary looks into (IANA's).
pub const PROTOCOL_CONTROL_V4: u8 = 1;
pub const PROTOCOL_TCP: u8 = 6;
pub const PROTOCOL_UDP: u8 = 17;
pub const PROTOCOL_CONTROL_V6: u8 = 58;

/// The header of an IP packet, as the log reads it.
pub struct IpHeader {
    /// The length of the whole packet.
    pub length: usize,
    pub source: Vec<u8>,
    pub destination: Vec<u8>,
    /// The next header (IPv6) or protocol (IPv4) number.
    pub protocol: u8,
    /// The hop limit (IPv6) or time to live (IPv4).
    pub ttl: u8,
    /// The payload length (IPv6) or total length (IPv4) field.
    pub length_field: u16,
    pub payload: Vec<u8>,
}

/// A header as a value.
pub struct HeaderView {
    pub length: nat,
    pub source: Seq<u8>,
    pub destination: Seq<u8>,
    pub protocol: u8,
    pub ttl: u8,
    pub length_field: u16,
    pub payload: Seq<u8>,
}

impl View for IpHeader {
    type V = HeaderView;

    open spec fn view(&self) -> HeaderView {
        HeaderView {
            length: self.length as nat,
            source: self.source@,
            destination: self.destination@,
            protocol: self.protocol,
            ttl: self.ttl,
            length_field: self.length_field,
            payload: self.payload@,
        }
    }
}

/// A packet, with the way it went and its IP version.
pub enum PacketDirection {
    ToNode6(IpHeader),
    ToHost6(IpHeader),
    ToNode4(IpHeader),
    ToHost4(IpHeader),
}

/// A packet as a value: whether it went to the node, whether it is IPv6,
/// and its header.
pub struct DirectionView {
    pub to_node: bool,
    pub v6: bool,
    pub header: HeaderView,
}

impl View for PacketDirection {
    type V = DirectionView;

    open spec fn view(&self) -> DirectionView {
        match self {
            PacketDirection::ToNode6(h) => DirectionView { to_node: true, v6: true, header: h@ },
            PacketDirection::ToHost6(h) => DirectionView { to_node: false, v6: true, header: h@ },
            PacketDirection::ToNode4(h) => DirectionView { to_node: true, v6: false, header: h@ },
            PacketDirection::ToHost4(h) => DirectionView { to_node: false, v6: false, header: h@ },
        }
    }
}

/// The header a packet's bytes give: the IP version is the high four bits
/// of the first byte; `None` for another version, for no bytes, and for
/// bytes too short for the header.
pub open spec fn packet_header(packet: Seq<u8>) -> Option<(bool, HeaderView)> {
    if packet.len() == 0 {
        None
    } else if packet[0] / 16 == 6 {
        match ipv6_fields(packet) {
            Some((s, d, p, t, l, pl)) => Some(
                (true, HeaderView { length: packet.len(), source: s, destination: d, protocol: p, ttl: t, length_field: l, payload: pl }),
            ),
            None => None,
        }
    } else if packet[0] / 16 == 4 {
        match ipv4_fields(packet) {
            Some((s, d, p, t, l, pl)) => Some(
                (false, HeaderView { length: packet.len(), source: s, destination: d, protocol: p, ttl: t, length_field: l, payload: pl }),
            ),
            None => None,
        }
    } else {
        None
    }
}

/// An address as text, for the IP version.
pub open spec fn address_text(v6: bool, a: Seq<u8>) -> Seq<char> {
    if v6 {
        ipv6_display(a)
    } else {
        ipv4_display(a)
    }
}

/// The title of a packet: host and node addresses, the way the packet
/// went, and its length.
pub open spec fn packet_title(p: DirectionView) -> Seq<char> {
    let h = p.header;
    if p.to_node {
        "Host ["@ + address_text(p.v6, h.source) + "] -> Node ["@ + address_text(p.v6, h.destination) + "] "@
            + digits(h.length, 10) + " bytes"@
    } else {
        "Host ["@ + address_text(p.v6, h.destination) + "] <- Node ["@ + address_text(p.v6, h.source) + "] "@
            + digits(h.length, 10) + " bytes"@
    }
}

/// What the summary says of the payload: whether an echo request or reply
/// is pinged, or which port a TCP segment or UDP datagram goes to; `None`
/// when the payload is too short for the header it should start with.
pub open spec fn protocol_info(p: DirectionView) -> Option<Seq<char>> {
    let h = p.header;
    if p.v6 && h.protocol == PROTOCOL_CONTROL_V6 {
        match control_type_v6(h.payload) {
            Some(t) => Some(
                if t == 128 {
                    "EchoRequest"@
                } else if t == 129 {
                    "EchoReply"@
                } else {
                    Seq::empty()
                },
            ),
            None => None,
        }
    } else if !p.v6 && h.protocol == PROTOCOL_CONTROL_V4 {
        match control_type_v4(h.payload) {
            Some(t) => Some(
                if t == 8 {
                    "EchoRequest"@
                } else if t == 0 {
                    "EchoReply"@
                } else {
                    Seq::empty()
                },
            ),
            None => None,
        }
    } else if h.protocol == PROTOCOL_TCP {
        match tcp_destination(h.payload) {
            Some(port) => Some("port "@ + digits(port as nat, 10)),
            None => None,
        }
    } else if h.protocol == PROTOCOL_UDP {
        match udp_destination(h.payload) {
            Some(port) => Some("port "@ + digits(port as nat, 10)),
            None => None,
        }
    } else {
        Some(Seq::empty())
    }
}

/// The summary of a packet: its protocol, what the payload says (see
/// `protocol_info`), its hop limit or time to live in three columns, and
/// its length field.
pub open spec fn packet_summary(p: DirectionView) -> Option<Seq<char>> {
    match protocol_info(p) {
        Some(info) => Some(
            protocol_name(p.header.protocol) + " "@ + info + " TTL "@ + align_right(digits(p.header.ttl as nat, 10), 3)
                + "; "@ + digits(p.header.length_field as nat, 10) + " bytes"@,
        ),
        None => None,
    }
}

/// A packet's header, read from its bytes (see `packet_header`).
fn read_header(packet: &[u8]) -> (r: Option<(bool, IpHeader)>)
    ensures
        r matches Some((v6, h)) ==> addresses_fit(DirectionView { to_node: false, v6, header: h@ }),
        match packet_header(packet@) {
            Some((v6, h)) => r matches Some((rv6, rh)) && rv6 == v6 && rh@ == h,
            None => r is None,
        },
{
    if packet.len() == 0 {
        return None;
    }
    let version = packet[0] / 16;
    if version == 6 {
        match read_ipv6(packet) {
            Some((source, destination, protocol, ttl, length_field, payload)) => Some(
                (true, IpHeader { length: packet.len(), source, destination, protocol, ttl, length_field, payload }),
            ),
            None => None,
        }
    } else if version == 4 {
        match read_ipv4(packet) {
            Some((source, destination, protocol, ttl, length_field, payload)) => Some(
                (false, IpHeader { length: packet.len(), source, destination, protocol, ttl, length_field, payload }),
            ),
            None => None,
        }
    } else {
        None
    }
}

/// An address as text (see `address_text`).
fn address_string(v6: bool, a: &[u8]) -> (r: String)
    requires
        v6 ==> a@.len() == 16,
        !v6 ==> a@.len() == 4,
    ensures
        r@ == address_text(v6, a@),
{
    if v6 {
        crate::command::commands::ifconfig::ipv6_string(a)
    } else {
        ipv4_string(a)
    }
}

/// Whether the addresses of a header have the length of its IP version.
pub open spec fn addresses_fit(p: DirectionView) -> bool {
    if p.v6 {
        p.header.source.len() == 16 && p.header.destination.len() == 16
    } else {
        p.header.source.len() == 4 && p.header.destination.len() == 4
    }
}

impl PacketDirection {
    /// The parts of the packet.
    fn parts(&self) -> (r: (bool, bool, &IpHeader))
        ensures
            r.0 == self@.to_node,
            r.1 == self@.v6,
            r.2@ == self@.header,
    {
        match self {
            PacketDirection::ToNode6(h) => (true, true, h),
            PacketDirection::ToHost6(h) => (false, true, h),
            PacketDirection::ToNode4(h) => (true, false, h),
            PacketDirection::ToHost4(h) => (false, false, h),
        }
    }

    /// The title of the packet (see `packet_title`); its addresses must
    /// have the length of its IP version.
    pub fn get_title(&self) -> (r: String)
        requires
            addresses_fit(self@),
        ensures
            r@ == packet_title(self@),
    {
        let (to_node, v6, h) = self.parts();
        let mut out = "Host [".to_owned();
        if to_node {
            string_push_str(&mut out, address_string(v6, h.source.as_slice()).as_str());
            string_push_str(&mut out, "] -> Node [");
            string_push_str(&mut out, address_string(v6, h.destination.as_slice()).as_str());
        } else {
            string_push_str(&mut out, address_string(v6, h.destination.as_slice()).as_str());
            string_push_str(&mut out, "] <- Node [");
            string_push_str(&mut out, address_string(v6, h.source.as_slice()).as_str());
        }
        string_push_str(&mut out, "] ");
        string_push_str(&mut out, crate::numfmt::decimal(h.length as u64).as_str());
        string_push_str(&mut out, " bytes");
        out
    }

    /// The summary of the packet (see `packet_summary`).
    pub fn get_payload(&self) -> (r: Option<String>)
        ensures
            match packet_summary(self@) {
                Some(t) => r matches Some(x) && x@ == t,
                None => r is None,
            },
    {
        let (_, v6, h) = self.parts();
        let info: String = if v6 && h.protocol == PROTOCOL_CONTROL_V6 {
            match read_control_type_v6(h.payload.as_slice()) {
                Some(t) => if t == 128 {
                    "EchoRequest".to_owned()
                } else if t == 129 {
                    "EchoReply".to_owned()
                } else {
                    String::new()
                },
                None => return None,
            }
        } else if !v6 && h.protocol == PROTOCOL_CONTROL_V4 {
            match read_control_type_v4(h.payload.as_slice()) {
                Some(t) => if t == 8 {
                    "EchoRequest".to_owned()
                } else if t == 0 {
                    "EchoReply".to_owned()
                } else {
                    String::new()
                },
                None => return None,
            }
        } else if h.protocol == PROTOCOL_TCP {
            match read_tcp_destination(h.payload.as_slice()) {
                Some(port) => {
                    let mut s = "port ".to_owned();
                    string_push_str(&mut s, crate::numfmt::decimal(port as u64).as_str());
                    s
                },
                None => return None,
            }
        } else if h.protocol == PROTOCOL_UDP {
            match read_udp_destination(h.payload.as_slice()) {
                Some(port) => {
                    let mut s = "port ".to_owned();
                    string_push_str(&mut s, crate::numfmt::decimal(port as u64).as_str());
                    s
                },
                None => return None,
            }
        } else {
            String::new()
        };
        proof {
            reveal_strlit("");
        }
        assert(protocol_info(self@) == Some(info@));
        let mut out = protocol_string(h.protocol);
        string_push_str(&mut out, " ");
        string_push_str(&mut out, info.as_str());
        string_push_str(&mut out, " TTL ");
        string_push_str(&mut out, crate::columns::right(crate::numfmt::decimal(h.ttl as u64).as_str(), 3).as_str());
        string_push_str(&mut out, "; ");
        string_push_str(&mut out, crate::numfmt::decimal(h.length_field as u64).as_str());
        string_push_str(&mut out, " bytes");
        Some(out)
    }
}

/// The packets logged, oldest first.
pub struct PacketLog {
    log: Vec<PacketDirection>,
}

impl PacketLog {
    /// The packets logged.
    pub closed spec fn packets(&self) -> Seq<DirectionView> {
        self.log@.map_values(|p: PacketDirection| p@)
    }

    /// A packet that went to the host, read from its bytes (see
    /// `packet_header`); `Err` where its header cannot be read.
    pub fn packet_to_host(packet: &[u8]) -> (r: Result<PacketDirection, ()>)
        ensures
            match packet_header(packet@) {
                Some((v6, h)) => r matches Ok(p) && p@ == (DirectionView { to_node: false, v6, header: h }),
                None => r is Err,
            },
            r matches Ok(p) ==> addresses_fit(p@),
    {
        match read_header(packet) {
            Some((true, h)) => Ok(PacketDirection::ToHost6(h)),
            Some((false, h)) => Ok(PacketDirection::ToHost4(h)),
            None => Err(()),
        }
    }

    /// A packet that went to the node, read from its bytes (see
    /// `packet_header`); `Err` where its header cannot be read.
    pub fn packet_to_node(packet: &[u8]) -> (r: Result<PacketDirection, ()>)
        ensures
            match packet_header(packet@) {
                Some((v6, h)) => r matches Ok(p) && p@ == (DirectionView { to_node: true, v6, header: h }),
                None => r is Err,
            },
            r matches Ok(p) ==> addresses_fit(p@),
    {
        match read_header(packet) {
            Some((true, h)) => Ok(PacketDirection::ToNode6(h)),
            Some((false, h)) => Ok(PacketDirection::ToNode4(h)),
            None => Err(()),
        }
    }

    /// An empty log.
    pub fn new() -> (r: Self)
        ensures
            r.packets().len() == 0,
    {
        Self { log: Vec::new() }
    }

    /// Logs a packet that went to the host, if its header can be read.
    pub fn add_to_host(&mut self, packet: &[u8])
        ensures
            final(self).packets() == match packet_header(packet@) {
                Some((v6, h)) => old(self).packets().push(DirectionView { to_node: false, v6, header: h }),
                None => old(self).packets(),
            },
    {
        if let Ok(p) = Self::packet_to_host(packet) {
            let ghost before = self.packets();
            let ghost pv = p@;
            self.log.push(p);
            assert(self.packets() =~= before.push(pv));
        }
    }

    /// Logs a packet that went to the node, if its header can be read.
    pub fn add_to_node(&mut self, packet: &[u8])
        ensures
            final(self).packets() == match packet_header(packet@) {
                Some((v6, h)) => old(self).packets().push(DirectionView { to_node: true, v6, header: h }),
                None => old(self).packets(),
            },
    {
        if let Ok(p) = Self::packet_to_node(packet) {
            let ghost before = self.packets();
            let ghost pv = p@;
            self.log.push(p);
            assert(self.packets() =~= before.push(pv));
        }
    }

    /// The packets logged, oldest first.
    pub fn log(&self) -> (r: &[PacketDirection])
        ensures
            r@.map_values(|p: PacketDirection| p@) == self.packets(),
    {
        self.log.as_slice()
    }
}

} // verus!
