//! Text laid out in columns the way `format!` aligns it: left, right and
//! centred in a field, counted in characters, and hexadecimal numbers.

use vstd::prelude::*;

use crate::numfmt::digits;
use crate::numfmt::digits_exec;
use crate::numfmt::pad_left;
use crate::numfmt::pad_left_exec;
use crate::text::chars_of;
use crate::text::string_from_chars;
use crate::text::string_push_str;

verus! {

/// `n` spaces.
pub open spec fn spaces(n: nat) -> Seq<char> {
    Seq::new(n, |i: int| ' ')
}

/// `s` left-aligned in a field of `width` characters (`{:<width}`).
pub open spec fn align_left(s: Seq<char>, width: nat) -> Seq<char> {
    if s.len() >= width {
        s
    } else {
        s + spaces((width - s.len()) as nat)
    }
}

/// `s` right-aligned in a field of `width` characters (`{:>width}`).
pub open spec fn align_right(s: Seq<char>, width: nat) -> Seq<char> {
    pad_left(s, width, ' ')
}

/// `s` centred in a field of `width` characters (`{:^width}`): of the
/// padding, the smaller half goes to the left.
pub open spec fn align_center(s: Seq<char>, width: nat) -> Seq<char> {
    if s.len() >= width {
        s
    } else {
        let pad = (width - s.len()) as nat;
        spaces(pad / 2) + s + spaces((pad - pad / 2) as nat)
    }
}

/// A hexadecimal digit in lower case.
pub open spec fn lower_hex_char(c: char) -> char {
    if 'A' <= c && c <= 'F' {
        ((c as u32) + 32) as char
    } else {
        c
    }
}

/// `n` in lower-case hexadecimal, without leading zeros (`{:x}`).
pub open spec fn hex_lower(n: nat) -> Seq<char> {
    digits(n, 16).map_values(|c: char| lower_hex_char(c))
}

/// A 32-bit word as `{:#010x}` writes it: `0x` and eight lower-case
/// hexadecimal digits.
pub open spec fn hex_word(n: u32) -> Seq<char> {
    "0x"@ + pad_left(hex_lower(n as nat), 8, '0')
}

/// `n` spaces, as a vector.
fn spaces_exec(n: usize) -> (r: Vec<char>)
    ensures
        r@ == spaces(n as nat),
{
    let mut r: Vec<char> = Vec::new();
    for i in 0..n
        invariant
            r@ == spaces(i as nat),
    {
        r.push(' ');
        assert(r@ =~= spaces((i + 1) as nat));
    }
    r
}

/// Appends the characters of `b` to `a`.
fn extend(a: &mut Vec<char>, b: &Vec<char>)
    ensures
        final(a)@ == old(a)@ + b@,
{
    let ghost front = a@;
    for i in 0..b.len()
        invariant
            a@ == front + b@.take(i as int),
    {
        a.push(b[i]);
        assert(b@.take(i + 1) == b@.take(i as int).push(b@[i as int]));
    }
    assert(b@.take(b@.len() as int) == b@);
}

/// `s` left-aligned in `width` characters.
pub fn left(s: &str, width: usize) -> (r: String)
    ensures
        r@ == align_left(s@, width as nat),
{
    let mut v = chars_of(s);
    if v.len() < width {
        let pad = spaces_exec(width - v.len());
        extend(&mut v, &pad);
    }
    string_from_chars(v.as_slice())
}

/// `s` right-aligned in `width` characters.
pub fn right(s: &str, width: usize) -> (r: String)
    ensures
        r@ == align_right(s@, width as nat),
{
    let v = pad_left_exec(chars_of(s), width, ' ');
    string_from_chars(v.as_slice())
}

/// `s` centred in `width` characters.
pub fn center(s: &str, width: usize) -> (r: String)
    ensures
        r@ == align_center(s@, width as nat),
{
    let v = chars_of(s);
    if v.len() >= width {
        string_from_chars(v.as_slice())
    } else {
        let pad = width - v.len();
        let mut w = spaces_exec(pad / 2);
        extend(&mut w, &v);
        let right = spaces_exec(pad - pad / 2);
        extend(&mut w, &right);
        string_from_chars(w.as_slice())
    }
}

/// `n` in lower-case hexadecimal (`{:x}`).
pub fn hex_lower_exec(n: u64) -> (r: Vec<char>)
    ensures
        r@ == hex_lower(n as nat),
{
    let d = digits_exec(n, 16);
    let mut r: Vec<char> = Vec::new();
    for i in 0..d.len()
        invariant
            r@ == d@.take(i as int).map_values(|c: char| lower_hex_char(c)),
    {
        let c = d[i];
        let l = match c {
            'A' => 'a',
            'B' => 'b',
            'C' => 'c',
            'D' => 'd',
            'E' => 'e',
            'F' => 'f',
            _ => c,
        };
        assert(l == lower_hex_char(c));
        r.push(l);
        assert(d@.take(i + 1) == d@.take(i as int).push(c));
        assert(r@ =~= d@.take(i + 1).map_values(|c: char| lower_hex_char(c)));
    }
    assert(d@.take(d@.len() as int) == d@);
    r
}

/// `n` as `{:#010x}` writes it.
pub fn hex_word_string(n: u32) -> (r: String)
    ensures
        r@ == hex_word(n),
{
    let mut out = "0x".to_owned();
    let v = pad_left_exec(hex_lower_exec(n as u64), 8, '0');
    let t = string_from_chars(v.as_slice());
    string_push_str(&mut out, t.as_str());
    out
}

/// A byte as `{:02x}` writes it.
pub open spec fn hex_byte(b: u8) -> Seq<char> {
    pad_left(hex_lower(b as nat), 2, '0')
}

/// The bytes from `i` on, each as `{:02x}`, separated by `, `.
pub open spec fn hex_items(b: Seq<u8>) -> Seq<char>
    decreases b.len(),
{
    if b.len() == 0 {
        Seq::empty()
    } else if b.len() == 1 {
        hex_byte(b[0])
    } else {
        hex_items(b.drop_last()) + ", "@ + hex_byte(b.last())
    }
}

/// A byte list as `{:02x?}` writes it: `[01, ff]`.
pub open spec fn hex_list(b: Seq<u8>) -> Seq<char> {
    "["@ + hex_items(b) + "]"@
}

/// `b` as `{:02x?}` writes it.
pub fn hex_list_string(b: &[u8]) -> (r: String)
    ensures
        r@ == hex_list(b@),
{
    let mut out = "[".to_owned();
    let ghost front = out@;
    assert(b@.take(0) =~= Seq::<u8>::empty());
    for i in 0..b.len()
        invariant
            front == "["@,
            out@ == front + hex_items(b@.take(i as int)),
    {
        if i > 0 {
            string_push_str(&mut out, ", ");
        }
        let v = pad_left_exec(hex_lower_exec(b[i] as u64), 2, '0');
        string_push_str(&mut out, string_from_chars(v.as_slice()).as_str());
        assert(b@.take(i + 1).drop_last() =~= b@.take(i as int));
        assert(b@.take(i + 1).last() == b@[i as int]);
        if i == 0 {
            assert(b@.take(1) =~= seq![b@[0]]);
        }
    }
    assert(b@.take(b@.len() as int) =~= b@);
    string_push_str(&mut out, "]");
    out
}

} // verus!
