//! Reading arbitrary device memory, in chunks of at most 255 bytes.

use vstd::prelude::*;

use super::super::request::Method;
use super::super::request::RequestPlan;
use super::super::request::RequestView;
use super::super::Command;
use super::super::CommandKind;
use crate::cbor::cbor_bytes;
use crate::cbor::encode_head;
use crate::cbor::in_buffer;
use crate::cbor::read_bytes;
use crate::numfmt::digits;
use crate::numfmt::u32_from_str_radix;
use crate::numfmt::u32_parse_error;
use crate::text::chars_of;
use crate::text::string_from_range;

verus! {

/// Whether `s` starts with `0x` or `0X`.
pub open spec fn has_hex_prefix(s: Seq<char>) -> bool {
    s.len() >= 2 && s[0] == '0' && (s[1] == 'x' || s[1] == 'X')
}

/// Parses an address: hexadecimal after a `0x` or `0X` prefix, decimal
/// otherwise.
pub fn maybe_hex(s: &str) -> (r: Result<u32, String>)
    ensures
        ({
            let (text, radix) = if has_hex_prefix(s@) { (s@.skip(2), 16u32) } else { (s@, 10u32) };
            &&& r is Ok <==> crate::numfmt::is_u32_text(text, radix as nat)
            &&& r is Ok ==> r->Ok_0 == crate::numfmt::digits_number(crate::numfmt::unsigned_digits(text), radix as nat)
            &&& r is Err ==> r->Err_0@ == u32_parse_error(text, radix)
        }),
{
    let v = chars_of(s);
    if v.len() >= 2 && v[0] == '0' && (v[1] == 'x' || v[1] == 'X') {
        let rest = string_from_range(v.as_slice(), 2, v.len());
        assert(v@.subrange(2, v@.len() as int) == s@.skip(2));
        u32_from_str_radix(rest.as_str(), 16)
    } else {
        u32_from_str_radix(s, 10)
    }
}

/// The arguments of `MemRead`: where to start and how many bytes to read.
pub struct MemReadCli {
    addr: u32,
    size: u32,
}

impl MemReadCli {
    pub closed spec fn spec_addr(&self) -> u32 {
        self.addr
    }

    pub closed spec fn spec_size(&self) -> u32 {
        self.size
    }

    /// The arguments to read `size` bytes from `addr` on.
    pub fn new(addr: u32, size: u32) -> (r: Self)
        ensures
            r.spec_addr() == addr,
            r.spec_size() == size,
    {
        Self { addr, size }
    }
}

/// Reads `size` bytes from `addr` on, 255 at a time, and collects them.
pub struct MemRead {
    buffer: Vec<u8>,
    finished: bool,
    displayable: bool,
    cli: MemReadCli,
}

/// The state of a memory read as values.
pub struct MemReadView {
    /// The bytes read so far.
    pub buffer: Seq<u8>,
    pub finished: bool,
    pub displayable: bool,
    /// Where the next chunk starts.
    pub addr: u32,
    /// How many bytes remain to be asked for.
    pub size: u32,
}

impl View for MemRead {
    type V = MemReadView;

    closed spec fn view(&self) -> MemReadView {
        MemReadView {
            buffer: self.buffer@,
            finished: self.finished,
            displayable: self.displayable,
            addr: self.cli.addr,
            size: self.cli.size,
        }
    }
}

/// The length of the next chunk: what remains, at most 255.
pub open spec fn chunk_len(size: u32) -> u8 {
    if size <= 255 {
        size as u8
    } else {
        255
    }
}

/// The request for the next chunk of a read that is at `s`.
pub open spec fn chunk_request(s: MemReadView) -> RequestView {
    RequestView {
        method: Method::Post,
        path: "/Memory"@,
        query: None,
        cbor: true,
        payload: read_request_payload(s.addr, chunk_len(s.size)),
    }
}

/// The payload asking for `len` bytes from `addr` on: an array of the two
/// numbers, closed by a break byte, in a zeroed buffer of ten bytes.
pub open spec fn read_request_payload(addr: u32, len: u8) -> Seq<u8> {
    in_buffer(encode_head(4, 2) + encode_head(0, addr as nat) + encode_head(0, len as nat) + seq![0xffu8], 10)
}

/// Writes the payload asking for `len` bytes from `addr` on.
fn encode_read_request(addr: u32, len: u8) -> (r: Vec<u8>)
    ensures
        r@ == read_request_payload(addr, len),
{
    let mut b: Vec<u8> = Vec::new();
    crate::cbor::put_array(&mut b, 2);
    crate::cbor::put_u32(&mut b, addr);
    crate::cbor::put_u8(&mut b, len);
    crate::cbor::put_end(&mut b);
    assert(b@ =~= encode_head(4, 2) + encode_head(0, addr as nat) + encode_head(0, len as nat) + seq![0xffu8]);
    proof {
        crate::cbor::lemma_head_len(4, 2);
        crate::cbor::lemma_head_len(0, addr as nat);
        crate::cbor::lemma_head_len(0, len as nat);
    }
    crate::cbor::fill_buffer(b, 10)
}

/// Whether the next chunk ends within the address space.
pub open spec fn chunk_fits(s: MemReadView) -> bool {
    s.addr + chunk_len(s.size) <= u32::MAX
}

/// The read moved past the next chunk.
pub open spec fn advance(s: MemReadView) -> MemReadView {
    MemReadView {
        addr: (s.addr + chunk_len(s.size)) as u32,
        size: (s.size - chunk_len(s.size)) as u32,
        ..s
    }
}

/// A response with `payload` to a read at `s`: the request that follows,
/// if any, and the read after it.
pub open spec fn mem_step(s: MemReadView, payload: Seq<u8>) -> (Option<RequestView>, MemReadView) {
    let got = match cbor_bytes(payload, 0) {
        Some((b, _)) => MemReadView { buffer: s.buffer + b, ..s },
        None => s,
    };
    if s.size > 0 {
        (Some(chunk_request(got)), advance(got))
    } else {
        (None, MemReadView { finished: true, displayable: true, ..got })
    }
}

/// What a memory read shows: how many bytes it read.
pub open spec fn mem_display(s: MemReadView) -> Seq<char> {
    "Read "@ + digits(s.buffer.len(), 10) + " byte(s).\n"@
}

/// The command: `MemRead`, needing `/Memory`.
pub fn cmd() -> (r: Command)
    ensures
        r@.cmd == "MemRead"@,
        r@.required_endpoints == seq!["/Memory"@],
        r@.kind == CommandKind::MemRead,
{
    let mut eps: Vec<String> = Vec::new();
    eps.push("/Memory".to_owned());
    let r = Command {
        cmd: "MemRead".to_owned(),
        description: "Read arbitrary memory".to_owned(),
        required_endpoints: eps,
        kind: CommandKind::MemRead,
    };
    assert(r@.required_endpoints =~= seq!["/Memory"@]);
    r
}

impl MemRead {
    /// A read with the parsed arguments, nothing read yet.
    pub fn new(cli: MemReadCli) -> (r: Self)
        ensures
            r@ == (MemReadView { buffer: Seq::empty(), finished: false, displayable: false, addr: cli.spec_addr(), size: cli.spec_size() }),
    {
        let r = Self { buffer: Vec::new(), finished: false, displayable: false, cli };
        assert(r@.buffer =~= Seq::<u8>::empty());
        r
    }

    /// The request for the next chunk; the read moves past it.
    fn send_request(&mut self) -> (r: RequestPlan)
        requires
            chunk_fits(old(self)@),
        ensures
            r@ == chunk_request(old(self)@),
            final(self)@ == (MemReadView {
                addr: (old(self)@.addr + chunk_len(old(self)@.size)) as u32,
                size: (old(self)@.size - chunk_len(old(self)@.size)) as u32,
                ..old(self)@
            }),
    {
        let num_bytes: u8 = if self.cli.size <= 255 { self.cli.size as u8 } else { 255 };
        let payload = encode_read_request(self.cli.addr, num_bytes);
        self.cli.size = self.cli.size - num_bytes as u32;
        self.cli.addr = self.cli.addr + num_bytes as u32;
        RequestPlan { method: Method::Post, path: "/Memory".to_owned(), query: None, cbor: true, payload }
    }

    /// The request for the first chunk (see `mem_init`).
    pub fn init(&mut self) -> (r: RequestPlan)
        requires
            chunk_fits(old(self)@),
        ensures
            r@ == chunk_request(old(self)@),
            final(self)@ == advance(old(self)@),
    {
        self.send_request()
    }

    /// Takes a response (see `mem_step`): the byte string it holds, if
    /// any, is added to what was read; then the next chunk is asked for, or,
    /// when none remains, the read is done.
    pub fn handle(&mut self, payload: &[u8]) -> (r: Option<RequestPlan>)
        requires
            old(self)@.size > 0 ==> chunk_fits(old(self)@),
        ensures
            match mem_step(old(self)@, payload@) {
                (Some(q), s) => r matches Some(p) && p@ == q && final(self)@ == s,
                (None, s) => r is None && final(self)@ == s,
            },
    {
        match read_bytes(payload, 0) {
            Some((bytes, _)) => {
                let mut b = bytes;
                self.buffer.append(&mut b);
            },
            None => {},
        }
        if self.cli.size > 0 {
            Some(self.send_request())
        } else {
            self.finished = true;
            self.displayable = true;
            None
        }
    }

    /// Whether the next chunk, if one remains, ends within the address
    /// space.
    pub fn can_continue(&self) -> (r: bool)
        ensures
            r == (self@.size > 0 ==> chunk_fits(self@)),
    {
        self.cli.size == 0 || self.next_chunk_fits()
    }

    /// Whether the next chunk ends within the address space.
    pub fn next_chunk_fits(&self) -> (r: bool)
        ensures
            r == chunk_fits(self@),
    {
        let n: u32 = if self.cli.size <= 255 { self.cli.size } else { 255 };
        self.cli.addr <= u32::MAX - n
    }

    pub fn want_display(&self) -> (r: bool)
        ensures
            r == self@.displayable,
    {
        self.displayable
    }

    pub fn is_finished(&self) -> (r: bool)
        ensures
            r == self@.finished,
    {
        self.finished
    }

    /// Writes `Read <n> byte(s).` and a newline into `buffer`.
    pub fn display(&self, buffer: &mut String)
        ensures
            final(buffer)@ == old(buffer)@ + mem_display(self@),
    {
        buffer.append("Read ");
        let n = crate::numfmt::decimal(self.buffer.len() as u64);
        buffer.append(n.as_str());
        buffer.append(" byte(s).\n");
    }

    /// The bytes read.
    pub fn export(&self) -> (r: Vec<u8>)
        ensures
            r@ == self@.buffer,
    {
        self.buffer.clone()
    }
}

} // verus!
