//! The CBOR items the commands send and receive, written and read with
//! minicbor.

use vstd::prelude::*;

verus! {

/// `v` as `n` big-endian bytes.
pub open spec fn be_bytes(v: nat, n: nat) -> Seq<u8>
    decreases n,
{
    if n == 0 {
        Seq::empty()
    } else {
        be_bytes(v / 256, (n - 1) as nat).push((v % 256) as u8)
    }
}

/// The head minicbor writes for major type `major` and argument `v`: the
/// shortest form (RFC 8949, section 3).
pub open spec fn encode_head(major: nat, v: nat) -> Seq<u8> {
    if v < 24 {
        seq![(major * 32 + v) as u8]
    } else if v <= 0xff {
        seq![(major * 32 + 24) as u8, v as u8]
    } else if v <= 0xffff {
        seq![(major * 32 + 25) as u8] + be_bytes(v, 2)
    } else if v <= 0xffff_ffff {
        seq![(major * 32 + 26) as u8] + be_bytes(v, 4)
    } else {
        seq![(major * 32 + 27) as u8] + be_bytes(v, 8)
    }
}

/// `be_bytes` gives as many bytes as asked for.
pub proof fn lemma_be_bytes_len(v: nat, n: nat)
    ensures
        be_bytes(v, n).len() == n,
    decreases n,
{
    if n > 0 {
        lemma_be_bytes_len(v / 256, (n - 1) as nat);
    }
}

/// The length of a head: one byte, and one, two, four or eight more as the
/// argument grows.
pub proof fn lemma_head_len(major: nat, v: nat)
    ensures
        encode_head(major, v).len() == if v < 24 {
            1nat
        } else if v <= 0xff {
            2
        } else if v <= 0xffff {
            3
        } else if v <= 0xffff_ffff {
            5
        } else {
            9
        },
{
    lemma_be_bytes_len(v, 2);
    lemma_be_bytes_len(v, 4);
    lemma_be_bytes_len(v, 8);
}

/// `256` to the power `n`.
pub open spec fn pow256(n: nat) -> nat
    decreases n,
{
    if n == 0 {
        1
    } else {
        256 * pow256((n - 1) as nat)
    }
}

/// Reading `n` big-endian bytes gives back a value that fits them.
pub proof fn lemma_be_roundtrip(v: nat, n: nat)
    requires
        v < pow256(n),
    ensures
        be_value(be_bytes(v, n)) == v,
    decreases n,
{
    if n > 0 {
        assert(v / 256 < pow256((n - 1) as nat)) by (nonlinear_arith)
            requires
                v < 256 * pow256((n - 1) as nat),
        ;
        lemma_be_roundtrip(v / 256, (n - 1) as nat);
        lemma_be_bytes_len(v / 256, (n - 1) as nat);
        assert(be_bytes(v, n).drop_last() =~= be_bytes(v / 256, (n - 1) as nat));
        assert((v / 256) * 256 + v % 256 == v) by (nonlinear_arith);
    }
}

/// A head reads back as the major type and argument it was written with,
/// whatever follows it.
pub proof fn law_head_roundtrip(major: nat, v: nat, rest: Seq<u8>)
    requires
        major < 8,
        v <= u64::MAX,
    ensures
        head(encode_head(major, v) + rest, 0) == Some((major as int, v, encode_head(major, v).len() as int)),
{
    let h = encode_head(major, v);
    let b = h + rest;
    lemma_head_len(major, v);
    assert(pow256(1) == 256) by {
        reveal_with_fuel(pow256, 2);
    }
    assert(pow256(2) == 65536) by {
        reveal_with_fuel(pow256, 3);
    }
    assert(pow256(4) == 0x1_0000_0000) by {
        reveal_with_fuel(pow256, 5);
    }
    assert(pow256(8) == 0x1_0000_0000_0000_0000) by {
        reveal_with_fuel(pow256, 9);
    }
    if v < 24 {
        assert(b[0] == major * 32 + v);
        assert((major * 32 + v) / 32 == major && (major * 32 + v) % 32 == v) by (nonlinear_arith)
            requires
                v < 24,
        ;
    } else {
        let info: nat = if v <= 0xff {
            24
        } else if v <= 0xffff {
            25
        } else if v <= 0xffff_ffff {
            26
        } else {
            27
        };
        let n: nat = if v <= 0xff {
            1
        } else if v <= 0xffff {
            2
        } else if v <= 0xffff_ffff {
            4
        } else {
            8
        };
        assert(b[0] == major * 32 + info);
        assert((major * 32 + info) / 32 == major && (major * 32 + info) % 32 == info) by (nonlinear_arith)
            requires
                24 <= info < 32,
        ;
        assert(argument_len(info as int) == n);
        if v <= 0xff {
            assert(b.subrange(1, 2) =~= seq![v as u8]);
            assert(be_value(seq![v as u8]) == v) by {
                assert(seq![v as u8].drop_last() =~= Seq::<u8>::empty());
                assert(be_value(Seq::<u8>::empty()) == 0);
                assert(seq![v as u8].last() == v as u8);
            }
        } else {
            lemma_be_roundtrip(v, n);
            lemma_be_bytes_len(v, n);
            assert(b.subrange(1, 1 + n as int) =~= be_bytes(v, n));
        }
    }
}

/// A head reads the same after any bytes put before it, at a position
/// moved on by their length.
pub proof fn lemma_head_after(p: Seq<u8>, b: Seq<u8>, q: int)
    requires
        0 <= q,
    ensures
        head(p + b, p.len() + q) == match head(b, q) {
            Some((m, v, next)) => Some((m, v, next + p.len())),
            None => None,
        },
{
    let c = p + b;
    let pos = p.len() + q;
    if q < b.len() {
        assert(c[pos] == b[q]);
        let n = argument_len((b[q] % 32) as int);
        if n > 0 && q + 1 + n <= b.len() {
            assert(c.subrange(pos + 1, pos + 1 + n) =~= b.subrange(q + 1, q + 1 + n));
        }
    }
}

/// An unsigned number written as `put_u8`, `put_u16` or `put_u32` write
/// it reads back, whatever follows it.
pub proof fn law_unsigned_roundtrip(v: nat, rest: Seq<u8>)
    requires
        v <= u64::MAX,
    ensures
        cbor_unsigned(encode_head(0, v) + rest, 0, v) == Some((v, encode_head(0, v).len() as int)),
        v <= 0xff ==> cbor_u8(encode_head(0, v) + rest, 0) == Some((v as u8, encode_head(0, v).len() as int)),
        v <= 0xffff ==> cbor_u16(encode_head(0, v) + rest, 0) == Some((v as u16, encode_head(0, v).len() as int)),
        v <= 0xffff_ffff ==> cbor_u32(encode_head(0, v) + rest, 0) == Some((v as u32, encode_head(0, v).len() as int)),
{
    law_head_roundtrip(0, v, rest);
}

/// A tag written as `put_tag` writes it reads back, whatever follows it.
pub proof fn law_tag_roundtrip(t: u64, rest: Seq<u8>)
    ensures
        cbor_tag(encode_head(6, t as nat) + rest, 0) == Some((t, encode_head(6, t as nat).len() as int)),
{
    law_head_roundtrip(6, t as nat, rest);
}

/// A byte string written as `put_bytes` writes it reads back, whatever
/// follows it.
pub proof fn law_bytes_roundtrip(x: Seq<u8>, rest: Seq<u8>)
    requires
        x.len() <= u64::MAX,
    ensures
        cbor_bytes(encode_head(2, x.len()) + x + rest, 0) == Some((x, (encode_head(2, x.len()).len() + x.len()) as int)),
{
    let h = encode_head(2, x.len());
    law_head_roundtrip(2, x.len(), x + rest);
    assert(h + x + rest =~= h + (x + rest));
    assert((h + x + rest).subrange(h.len() as int, (h.len() + x.len()) as int) =~= x);
}

/// A boolean written as `put_bool` writes it reads back, whatever follows
/// it.
pub proof fn law_bool_roundtrip(x: bool, rest: Seq<u8>)
    ensures
        cbor_bool(encode_bool(x) + rest, 0) == Some((x, 1int)),
{
}

/// The encoding of a boolean.
pub open spec fn encode_bool(x: bool) -> Seq<u8> {
    if x {
        seq![0xf5u8]
    } else {
        seq![0xf4u8]
    }
}

/// Appends the start of an array of `len` items (minicbor's
/// `Encoder::array`, writing to a `Vec`, which cannot fail).
#[verifier::external_body]
pub(crate) fn put_array(out: &mut Vec<u8>, len: u64)
    ensures
        final(out)@ == old(out)@ + encode_head(4, len as nat),
{
    let _ = minicbor::Encoder::new(&mut *out).array(len);
}

/// Appends an unsigned integer (minicbor's `Encoder::u8`).
#[verifier::external_body]
pub(crate) fn put_u8(out: &mut Vec<u8>, x: u8)
    ensures
        final(out)@ == old(out)@ + encode_head(0, x as nat),
{
    let _ = minicbor::Encoder::new(&mut *out).u8(x);
}

/// Appends an unsigned integer (minicbor's `Encoder::u32`).
#[verifier::external_body]
pub(crate) fn put_u32(out: &mut Vec<u8>, x: u32)
    ensures
        final(out)@ == old(out)@ + encode_head(0, x as nat),
{
    let _ = minicbor::Encoder::new(&mut *out).u32(x);
}

/// Appends a boolean (minicbor's `Encoder::bool`).
#[verifier::external_body]
pub(crate) fn put_bool(out: &mut Vec<u8>, x: bool)
    ensures
        final(out)@ == old(out)@ + encode_bool(x),
{
    let _ = minicbor::Encoder::new(&mut *out).bool(x);
}

/// Appends an unsigned integer (minicbor's `Encoder::u16`).
#[verifier::external_body]
pub(crate) fn put_u16(out: &mut Vec<u8>, x: u16)
    ensures
        final(out)@ == old(out)@ + encode_head(0, x as nat),
{
    let _ = minicbor::Encoder::new(&mut *out).u16(x);
}

/// Appends a tag (minicbor's `Encoder::tag`).
#[verifier::external_body]
pub(crate) fn put_tag(out: &mut Vec<u8>, tag: u64)
    ensures
        final(out)@ == old(out)@ + encode_head(6, tag as nat),
{
    let _ = minicbor::Encoder::new(&mut *out).tag(minicbor::data::Tag::new(tag));
}

/// Appends a byte string (minicbor's `Encoder::bytes`).
#[verifier::external_body]
pub(crate) fn put_bytes(out: &mut Vec<u8>, x: &[u8])
    ensures
        final(out)@ == old(out)@ + encode_head(2, x@.len()) + x@,
{
    let _ = minicbor::Encoder::new(&mut *out).bytes(x);
}

/// Appends the "break" byte that ends an indefinite container (minicbor's
/// `Encoder::end`).
#[verifier::external_body]
pub(crate) fn put_end(out: &mut Vec<u8>)
    ensures
        final(out)@ == old(out)@.push(0xffu8),
{
    let _ = minicbor::Encoder::new(&mut *out).end();
}

/// `bytes` written at the start of a zeroed buffer of `n` bytes.
pub open spec fn in_buffer(bytes: Seq<u8>, n: nat) -> Seq<u8> {
    bytes + Seq::new((n - bytes.len()) as nat, |i: int| 0u8)
}

/// Writes `bytes` into a zeroed buffer of `n` bytes, which they must fit.
pub fn fill_buffer(bytes: Vec<u8>, n: usize) -> (r: Vec<u8>)
    requires
        bytes@.len() <= n,
    ensures
        r@ == in_buffer(bytes@, n as nat),
{
    let mut r = bytes;
    let ghost front = r@;
    let k = n - r.len();
    for i in 0..k
        invariant
            r@ == front + Seq::new(i as nat, |j: int| 0u8),
    {
        r.push(0);
        assert(r@ =~= front + Seq::new((i + 1) as nat, |j: int| 0u8));
    }
    r
}

/// The big-endian value of `s`.
pub open spec fn be_value(s: Seq<u8>) -> nat
    decreases s.len(),
{
    if s.len() == 0 {
        0
    } else {
        be_value(s.drop_last()) * 256 + s.last() as nat
    }
}

/// How many bytes follow the initial byte for the additional information
/// `info` (the low five bits of the initial byte); -1 for the reserved
/// values and for an indefinite length.
pub open spec fn argument_len(info: int) -> int {
    if info < 24 {
        0
    } else if info == 24 {
        1
    } else if info == 25 {
        2
    } else if info == 26 {
        4
    } else if info == 27 {
        8
    } else {
        -1
    }
}

/// The head of the CBOR item at `pos` (RFC 8949, section 3): its major type
/// (the high three bits of the initial byte), its argument, and where the
/// head ends; `None` when the bytes end first, or when the additional
/// information is reserved (28 to 30) or indefinite (31).
pub open spec fn head(b: Seq<u8>, pos: int) -> Option<(int, nat, int)> {
    if 0 <= pos < b.len() {
        let major = b[pos] / 32;
        let info = b[pos] % 32;
        let n = argument_len(info as int);
        if n < 0 || pos + 1 + n > b.len() {
            None
        } else if n == 0 {
            Some((major as int, info as nat, pos + 1))
        } else {
            Some((major as int, be_value(b.subrange(pos + 1, pos + 1 + n)), pos + 1 + n))
        }
    } else {
        None
    }
}

/// An unsigned integer of at most `max` at `pos`, and where it ends.
pub open spec fn cbor_unsigned(b: Seq<u8>, pos: int, max: nat) -> Option<(nat, int)> {
    match head(b, pos) {
        Some((major, v, next)) => if major == 0 && v <= max {
            Some((v, next))
        } else {
            None
        },
        None => None,
    }
}

/// What minicbor's `Decoder::u8` reads at `pos`.
pub open spec fn cbor_u8(b: Seq<u8>, pos: int) -> Option<(u8, int)> {
    match cbor_unsigned(b, pos, 255) {
        Some((v, next)) => Some((v as u8, next)),
        None => None,
    }
}

/// What minicbor's `Decoder::u32` reads at `pos`.
pub open spec fn cbor_u32(b: Seq<u8>, pos: int) -> Option<(u32, int)> {
    match cbor_unsigned(b, pos, 0xffff_ffff) {
        Some((v, next)) => Some((v as u32, next)),
        None => None,
    }
}

/// What minicbor's `Decoder::bool` reads at `pos`.
pub open spec fn cbor_bool(b: Seq<u8>, pos: int) -> Option<(bool, int)> {
    if 0 <= pos < b.len() && b[pos] == 0xf4 {
        Some((false, pos + 1))
    } else if 0 <= pos < b.len() && b[pos] == 0xf5 {
        Some((true, pos + 1))
    } else {
        None
    }
}

/// The start of an array (`major` 4) or a map (`major` 5) at `pos`: its
/// length, `None` for an indefinite one, and where its head ends.
pub open spec fn cbor_container(b: Seq<u8>, pos: int, major: int) -> Option<(Option<u64>, int)> {
    if 0 <= pos < b.len() && b[pos] == major * 32 + 31 {
        Some((None, pos + 1))
    } else {
        match head(b, pos) {
            Some((m, v, next)) => if m == major {
                Some((Some(v as u64), next))
            } else {
                None
            },
            None => None,
        }
    }
}

/// What minicbor's `Decoder::array` reads at `pos`.
pub open spec fn cbor_array(b: Seq<u8>, pos: int) -> Option<(Option<u64>, int)> {
    cbor_container(b, pos, 4)
}

/// What minicbor's `Decoder::map` reads at `pos`.
pub open spec fn cbor_map(b: Seq<u8>, pos: int) -> Option<(Option<u64>, int)> {
    cbor_container(b, pos, 5)
}

/// The content of a definite-length string of major type `major` (2 for
/// bytes, 3 for text) at `pos`, and where it ends.
pub open spec fn cbor_string(b: Seq<u8>, pos: int, major: int) -> Option<(Seq<u8>, int)> {
    match head(b, pos) {
        Some((m, n, next)) => if m == major && next + n <= b.len() {
            Some((b.subrange(next, next + n), next + n))
        } else {
            None
        },
        None => None,
    }
}

/// What minicbor's `Decoder::bytes` reads at `pos`.
pub open spec fn cbor_bytes(b: Seq<u8>, pos: int) -> Option<(Seq<u8>, int)> {
    cbor_string(b, pos, 2)
}

/// What minicbor's `Decoder::str` reads at `pos`: text that is valid
/// UTF-8.
pub open spec fn cbor_str(b: Seq<u8>, pos: int) -> Option<(Seq<char>, int)> {
    match cbor_string(b, pos, 3) {
        Some((t, next)) => if vstd::utf8::valid_utf8(t) {
            Some((vstd::utf8::decode_utf8(t), next))
        } else {
            None
        },
        None => None,
    }
}

/// What minicbor's `Decoder::u16` reads at `pos`.
pub open spec fn cbor_u16(b: Seq<u8>, pos: int) -> Option<(u16, int)> {
    match cbor_unsigned(b, pos, 0xffff) {
        Some((v, next)) => Some((v as u16, next)),
        None => None,
    }
}

/// What minicbor's `Decoder::u64` reads at `pos`.
pub open spec fn cbor_u64(b: Seq<u8>, pos: int) -> Option<(u64, int)> {
    match head(b, pos) {
        Some((major, v, next)) => if major == 0 {
            Some((v as u64, next))
        } else {
            None
        },
        None => None,
    }
}

/// What minicbor's `Decoder::i16` reads at `pos`: an unsigned integer of
/// at most 32767, or a negative one (major type 1) of at least -32768.
pub open spec fn cbor_i16(b: Seq<u8>, pos: int) -> Option<(i16, int)> {
    match head(b, pos) {
        Some((major, v, next)) => if major == 0 && v <= 32767 {
            Some((v as i16, next))
        } else if major == 1 && v <= 32767 {
            Some(((-1 - v) as i16, next))
        } else {
            None
        },
        None => None,
    }
}

/// What minicbor's `Decoder::tag` reads at `pos`: the tag's number.
pub open spec fn cbor_tag(b: Seq<u8>, pos: int) -> Option<(u64, int)> {
    match head(b, pos) {
        Some((major, v, next)) => if major == 6 {
            Some((v as u64, next))
        } else {
            None
        },
        None => None,
    }
}

/// Where the decoder stands after an attempt to read an item whose
/// initial bytes lie in `lo..=hi`: after it when it was read; one byte on
/// when the first byte was read but the rest could not be (minicbor reads
/// the initial byte first); where it was at the end of the input.
pub open spec fn attempt_end(b: Seq<u8>, pos: int, lo: u8, hi: u8) -> int {
    if pos < 0 || pos >= b.len() {
        pos
    } else if lo <= b[pos] <= hi {
        match head(b, pos) {
            Some((_, _, next)) => next,
            None => pos + 1,
        }
    } else {
        pos + 1
    }
}

/// Whether a break byte (which ends an indefinite container) is at `pos`.
pub open spec fn is_break(b: Seq<u8>, pos: int) -> bool {
    0 <= pos < b.len() && b[pos] == 0xff
}

/// Where minicbor's `Decoder::skip` ends when it skips the whole item at
/// `pos`, if it can.
pub uninterp spec fn cbor_skip_end(b: Seq<u8>, pos: int) -> Option<int>;

/// Every item read ends after it starts and within the bytes.
pub proof fn lemma_head_advances(b: Seq<u8>, pos: int)
    ensures
        head(b, pos) matches Some((_, _, next)) ==> pos < next <= b.len(),
        cbor_u8(b, pos) matches Some((_, next)) ==> pos < next <= b.len(),
        cbor_u32(b, pos) matches Some((_, next)) ==> pos < next <= b.len(),
        cbor_bool(b, pos) matches Some((_, next)) ==> pos < next <= b.len(),
        cbor_array(b, pos) matches Some((_, next)) ==> pos < next <= b.len(),
        cbor_map(b, pos) matches Some((_, next)) ==> pos < next <= b.len(),
        cbor_bytes(b, pos) matches Some((_, next)) ==> pos < next <= b.len(),
        cbor_str(b, pos) matches Some((_, next)) ==> pos < next <= b.len(),
        cbor_u16(b, pos) matches Some((_, next)) ==> pos < next <= b.len(),
        cbor_u64(b, pos) matches Some((_, next)) ==> pos < next <= b.len(),
        cbor_i16(b, pos) matches Some((_, next)) ==> pos < next <= b.len(),
        cbor_tag(b, pos) matches Some((_, next)) ==> pos < next <= b.len(),
        0 <= pos < b.len() ==> pos < attempt_end(b, pos, 0, 0x1b) <= b.len(),
        0 <= pos < b.len() ==> pos < attempt_end(b, pos, 0xc0, 0xdb) <= b.len(),
{
}

/// Reads an unsigned integer of at most `u16::MAX` at `pos` (minicbor's
/// `Decoder::u16`, from that position).
#[verifier::external_body]
pub(crate) fn read_u16(b: &[u8], pos: usize) -> (r: Option<(u16, usize)>)
    ensures
        match cbor_u16(b@, pos as int) {
            Some((v, next)) => r matches Some((got, end)) && got == v && end as int == next,
            None => r is None,
        },
{
    let mut decoder = minicbor::Decoder::new(b);
    decoder.set_position(pos);
    match decoder.u16() {
        Ok(v) => Some((v, decoder.position())),
        Err(_) => None,
    }
}

/// Reads an unsigned integer at `pos` (minicbor's `Decoder::u64`, from
/// that position).
#[verifier::external_body]
pub(crate) fn read_u64(b: &[u8], pos: usize) -> (r: Option<(u64, usize)>)
    ensures
        match cbor_u64(b@, pos as int) {
            Some((v, next)) => r matches Some((got, end)) && got == v && end as int == next,
            None => r is None,
        },
{
    let mut decoder = minicbor::Decoder::new(b);
    decoder.set_position(pos);
    match decoder.u64() {
        Ok(v) => Some((v, decoder.position())),
        Err(_) => None,
    }
}

/// Reads a 16-bit signed integer at `pos` (minicbor's `Decoder::i16`, from
/// that position).
#[verifier::external_body]
pub(crate) fn read_i16(b: &[u8], pos: usize) -> (r: Option<(i16, usize)>)
    ensures
        match cbor_i16(b@, pos as int) {
            Some((v, next)) => r matches Some((got, end)) && got == v && end as int == next,
            None => r is None,
        },
{
    let mut decoder = minicbor::Decoder::new(b);
    decoder.set_position(pos);
    match decoder.i16() {
        Ok(v) => Some((v, decoder.position())),
        Err(_) => None,
    }
}

/// Tries to read a tag at `pos` (minicbor's `Decoder::tag`, from that
/// position): its number, if it is one, and where the decoder then stands,
/// in either case (see `attempt_end`).
#[verifier::external_body]
pub(crate) fn try_tag(b: &[u8], pos: usize) -> (r: (Option<u64>, usize))
    ensures
        match cbor_tag(b@, pos as int) {
            Some((v, next)) => r.0 == Some(v) && r.1 as int == next,
            None => r.0 is None && r.1 as int == attempt_end(b@, pos as int, 0xc0, 0xdb),
        },
{
    let mut decoder = minicbor::Decoder::new(b);
    decoder.set_position(pos);
    match decoder.tag() {
        Ok(t) => (Some(t.as_u64()), decoder.position()),
        Err(_) => (None, decoder.position()),
    }
}

/// Tries to read an unsigned integer of at most 255 at `pos` (minicbor's
/// `Decoder::u8`, from that position): the number, if there is one, and
/// where the decoder then stands, in either case (see `attempt_end`).
#[verifier::external_body]
pub(crate) fn try_u8(b: &[u8], pos: usize) -> (r: (Option<u8>, usize))
    ensures
        match cbor_u8(b@, pos as int) {
            Some((v, next)) => r.0 == Some(v) && r.1 as int == next,
            None => r.0 is None && r.1 as int == attempt_end(b@, pos as int, 0, 0x1b),
        },
{
    let mut decoder = minicbor::Decoder::new(b);
    decoder.set_position(pos);
    match decoder.u8() {
        Ok(v) => (Some(v), decoder.position()),
        Err(_) => (None, decoder.position()),
    }
}

/// Skips the whole item at `pos` (minicbor's `Decoder::skip`, from that
/// position): where it ends, if it can be skipped.  Skipping consumes at
/// least a byte, and a break byte alone.
#[verifier::external_body]
pub(crate) fn skip_item(b: &[u8], pos: usize) -> (r: Option<usize>)
    ensures
        match cbor_skip_end(b@, pos as int) {
            Some(end) => r matches Some(got) && got as int == end,
            None => r is None,
        },
        r matches Some(end) ==> pos < end <= b@.len(),
        is_break(b@, pos as int) ==> r == Some((pos + 1) as usize),
{
    let mut decoder = minicbor::Decoder::new(b);
    decoder.set_position(pos);
    match decoder.skip() {
        Ok(()) => Some(decoder.position()),
        Err(_) => None,
    }
}

/// Reads an unsigned integer of at most `u32::MAX` at `pos` (minicbor's
/// `Decoder::u32`, from that position).
#[verifier::external_body]
pub(crate) fn read_u32(b: &[u8], pos: usize) -> (r: Option<(u32, usize)>)
    ensures
        match cbor_u32(b@, pos as int) {
            Some((v, next)) => r matches Some((got, end)) && got == v && end as int == next,
            None => r is None,
        },
{
    let mut decoder = minicbor::Decoder::new(b);
    decoder.set_position(pos);
    match decoder.u32() {
        Ok(v) => Some((v, decoder.position())),
        Err(_) => None,
    }
}

/// Reads a boolean at `pos` (minicbor's `Decoder::bool`, from that
/// position).
#[verifier::external_body]
pub(crate) fn read_bool(b: &[u8], pos: usize) -> (r: Option<(bool, usize)>)
    ensures
        match cbor_bool(b@, pos as int) {
            Some((v, next)) => r matches Some((got, end)) && got == v && end as int == next,
            None => r is None,
        },
{
    let mut decoder = minicbor::Decoder::new(b);
    decoder.set_position(pos);
    match decoder.bool() {
        Ok(v) => Some((v, decoder.position())),
        Err(_) => None,
    }
}

/// Reads the start of an array at `pos` (minicbor's `Decoder::array`, from
/// that position): its length, if definite.
#[verifier::external_body]
pub(crate) fn read_array(b: &[u8], pos: usize) -> (r: Option<(Option<u64>, usize)>)
    ensures
        match cbor_array(b@, pos as int) {
            Some((v, next)) => r matches Some((got, end)) && got == v && end as int == next,
            None => r is None,
        },
{
    let mut decoder = minicbor::Decoder::new(b);
    decoder.set_position(pos);
    match decoder.array() {
        Ok(v) => Some((v, decoder.position())),
        Err(_) => None,
    }
}

/// Tries to read the start of a map at `pos` (minicbor's `Decoder::map`,
/// from that position): its length, `None` for an indefinite one, if it is
/// a map, and where the decoder then stands, in either case (see
/// `attempt_end`; an indefinite map's single byte lies outside the range
/// given there and is read alone).
#[verifier::external_body]
pub(crate) fn try_map(b: &[u8], pos: usize) -> (r: (Option<Option<u64>>, usize))
    ensures
        match cbor_map(b@, pos as int) {
            Some((v, next)) => r.0 == Some(v) && r.1 as int == next,
            None => r.0 is None && r.1 as int == attempt_end(b@, pos as int, 0xa0, 0xbb),
        },
{
    let mut decoder = minicbor::Decoder::new(b);
    decoder.set_position(pos);
    match decoder.map() {
        Ok(v) => (Some(v), decoder.position()),
        Err(_) => (None, decoder.position()),
    }
}

/// Reads the start of a map at `pos`: its length, if definite.
pub(crate) fn read_map(b: &[u8], pos: usize) -> (r: Option<(Option<u64>, usize)>)
    ensures
        match cbor_map(b@, pos as int) {
            Some((v, next)) => r matches Some((got, end)) && got == v && end as int == next,
            None => r is None,
        },
{
    match try_map(b, pos) {
        (Some(v), p) => Some((v, p)),
        (None, _) => None,
    }
}

/// Reads an unsigned integer of at most 255 at `pos`.
pub(crate) fn read_u8(b: &[u8], pos: usize) -> (r: Option<(u8, usize)>)
    ensures
        match cbor_u8(b@, pos as int) {
            Some((v, next)) => r matches Some((got, end)) && got == v && end as int == next,
            None => r is None,
        },
{
    match try_u8(b, pos) {
        (Some(v), p) => Some((v, p)),
        (None, _) => None,
    }
}

/// Reads a definite-length byte string at `pos` (minicbor's
/// `Decoder::bytes`, from that position).
#[verifier::external_body]
pub(crate) fn read_bytes(b: &[u8], pos: usize) -> (r: Option<(Vec<u8>, usize)>)
    ensures
        match cbor_bytes(b@, pos as int) {
            Some((v, next)) => r matches Some((got, end)) && got@ == v && end as int == next,
            None => r is None,
        },
{
    let mut decoder = minicbor::Decoder::new(b);
    decoder.set_position(pos);
    match decoder.bytes() {
        Ok(v) => Some((v.to_vec(), decoder.position())),
        Err(_) => None,
    }
}

/// Reads a definite-length text string at `pos` (minicbor's `Decoder::str`,
/// from that position).
#[verifier::external_body]
pub(crate) fn read_str(b: &[u8], pos: usize) -> (r: Option<(String, usize)>)
    ensures
        match cbor_str(b@, pos as int) {
            Some((v, next)) => r matches Some((got, end)) && got@ == v && end as int == next,
            None => r is None,
        },
{
    let mut decoder = minicbor::Decoder::new(b);
    decoder.set_position(pos);
    match decoder.str() {
        Ok(v) => Some((v.to_owned(), decoder.position())),
        Err(_) => None,
    }
}

/// What cbor-edn's `StandaloneItem::from_cbor` makes of `bytes`: the item
/// in diagnostic notation (`serialize`), or the error's message.
pub uninterp spec fn cbor_edn_text(bytes: Seq<u8>) -> Result<Seq<char>, Seq<char>>;

/// Whether `b` holds the initial byte of an indefinite-length byte or text
/// string (`0x5f` or `0x7f`) directly followed by a break byte: where such
/// an empty string is an item, cbor-edn's `from_cbor` stops with `todo!`.
pub open spec fn has_empty_string_marker(b: Seq<u8>) -> bool {
    exists|i: int| 0 <= i < b.len() - 1 && (b[i] == 0x5f || b[i] == 0x7f) && #[trigger] b[i + 1] == 0xff
}

/// Parses one CBOR item and writes it in diagnostic notation (cbor-edn's
/// `StandaloneItem::from_cbor`, then `serialize`); on failure, the error's
/// `Display` text.  An indefinite-length string closed at once makes
/// `from_cbor` panic; the bytes must hold no such pair (see
/// `has_empty_string_marker`).
#[verifier::external_body]
pub(crate) fn cbor_to_edn(bytes: &[u8]) -> (r: Result<String, String>)
    requires
        !has_empty_string_marker(bytes@),
    ensures
        match cbor_edn_text(bytes@) {
            Ok(t) => r matches Ok(s) && s@ == t,
            Err(e) => r matches Err(s) && s@ == e,
        },
{
    match cbor_edn::StandaloneItem::from_cbor(bytes) {
        Ok(item) => Ok(item.serialize()),
        Err(e) => Err(format!("{e}")),
    }
}

/// The error shown for bytes that cbor-edn is not given (see
/// `has_empty_string_marker`).
pub open spec fn empty_string_refusal() -> Seq<char> {
    "indefinite-length string closed at once"@
}

/// What becomes of `b` in diagnostic notation: cbor-edn's result, or the
/// refusal where cbor-edn would not return (see `has_empty_string_marker`).
pub open spec fn edn_of(b: Seq<u8>) -> Result<Seq<char>, Seq<char>> {
    if has_empty_string_marker(b) {
        Err(empty_string_refusal())
    } else {
        cbor_edn_text(b)
    }
}

/// `bytes` in diagnostic notation (see `edn_of`).
pub fn edn_text(bytes: &[u8]) -> (r: Result<String, String>)
    ensures
        match edn_of(bytes@) {
            Ok(t) => r matches Ok(s) && s@ == t,
            Err(e) => r matches Err(s) && s@ == e,
        },
{
    let mut i: usize = 0;
    while i < bytes.len() && i + 1 < bytes.len()
        invariant
            i <= bytes.len(),
            forall|j: int| 0 <= j < i && j < bytes@.len() - 1 ==> !((bytes@[j] == 0x5f || bytes@[j] == 0x7f)
                && #[trigger] bytes@[j + 1] == 0xff),
        decreases bytes.len() - i,
    {
        if (bytes[i] == 0x5f || bytes[i] == 0x7f) && bytes[i + 1] == 0xff {
            assert(bytes@[i + 1] == 0xff);
            return Err("indefinite-length string closed at once".to_owned());
        }
        i = i + 1;
    }
    cbor_to_edn(bytes)
}

} // verus!
