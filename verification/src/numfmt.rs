//! Numbers written as text: decimal and upper-case hexadecimal.

use vstd::prelude::*;

verus! {

/// The character of digit `d` (below 16), upper case.
pub open spec fn digit_char(d: nat) -> char {
    if d < 10 {
        (('0' as u32) + d) as char
    } else {
        (('A' as u32) + (d - 10)) as char
    }
}

/// The digits of `n` in `base`, most significant first, without leading
/// zeros; zero is the single digit `0`.
pub open spec fn digits(n: nat, base: nat) -> Seq<char>
    decreases n,
{
    if base < 2 || n < base {
        seq![digit_char(n)]
    } else {
        proof {
            assert(n / base < n) by (nonlinear_arith)
                requires
                    base >= 2,
                    n >= base,
            ;
        }
        digits(n / base, base).push(digit_char(n % base))
    }
}

/// `s` padded on the left with `pad` to at least `width` characters.
pub open spec fn pad_left(s: Seq<char>, width: nat, pad: char) -> Seq<char> {
    if s.len() >= width {
        s
    } else {
        Seq::new((width - s.len()) as nat, |i: int| pad) + s
    }
}

fn digit(d: u64) -> (c: char)
    requires
        d < 16,
    ensures
        c == digit_char(d as nat),
{
    let table: [char; 16] = [
        '0',
        '1',
        '2',
        '3',
        '4',
        '5',
        '6',
        '7',
        '8',
        '9',
        'A',
        'B',
        'C',
        'D',
        'E',
        'F',
    ];
    let c = table[d as usize];
    assert(c == digit_char(d as nat)) by {
        assert(table@[d as int] == c);
    }
    c
}

/// The digits of `n` in `base` (2 to 16), most significant first.
pub fn digits_exec(n: u64, base: u64) -> (r: Vec<char>)
    requires
        2 <= base <= 16,
    ensures
        r@ == digits(n as nat, base as nat),
    decreases n,
{
    if n < base {
        let mut r: Vec<char> = Vec::new();
        r.push(digit(n));
        assert(r@ == seq![digit_char(n as nat)]);
        r
    } else {
        assert(n / base < n) by (nonlinear_arith)
            requires
                base >= 2,
                n >= base,
        ;
        let mut r = digits_exec(n / base, base);
        let d = digit(n % base);
        r.push(d);
        r
    }
}

/// `s` padded on the left with `pad` to at least `width` characters.
pub fn pad_left_exec(s: Vec<char>, width: usize, pad: char) -> (r: Vec<char>)
    ensures
        r@ == pad_left(s@, width as nat, pad),
{
    if s.len() >= width {
        return s;
    }
    let k = width - s.len();
    let mut r: Vec<char> = Vec::new();
    for i in 0..k
        invariant
            r@ == Seq::new(i as nat, |j: int| pad),
    {
        r.push(pad);
        assert(r@ =~= Seq::new((i + 1) as nat, |j: int| pad));
    }
    let ghost front = r@;
    for i in 0..s.len()
        invariant
            r@ == front + s@.take(i as int),
    {
        r.push(s[i]);
        assert(s@.take(i + 1) == s@.take(i as int).push(s@[i as int]));
    }
    assert(s@.take(s@.len() as int) == s@);
    r
}

/// `n` in decimal, as `{}` writes it.
pub fn decimal(n: u64) -> (r: String)
    ensures
        r@ == digits(n as nat, 10),
{
    let v = digits_exec(n, 10);
    crate::text::string_from_chars(v.as_slice())
}

/// `n` in upper-case hexadecimal, at least `width` digits with leading
/// zeros, as `{:0width$X}` writes it.
pub fn hex_upper(n: u64, width: usize) -> (r: Vec<char>)
    ensures
        r@ == pad_left(digits(n as nat, 16), width as nat, '0'),
{
    let v = digits_exec(n, 16);
    pad_left_exec(v, width, '0')
}

} // verus!

verus! {

/// The value of a digit character: `0`-`9`, then `a`-`z` and `A`-`Z` from
/// ten on; -1 for any other character.
pub open spec fn digit_value(c: char) -> int {
    if '0' <= c && c <= '9' {
        (c as int) - ('0' as int)
    } else if 'a' <= c && c <= 'z' {
        (c as int) - ('a' as int) + 10
    } else if 'A' <= c && c <= 'Z' {
        (c as int) - ('A' as int) + 10
    } else {
        -1
    }
}

/// The number that the digits `s` denote in `radix`.
pub open spec fn digits_number(s: Seq<char>, radix: nat) -> int
    decreases s.len(),
{
    if s.len() == 0 {
        0
    } else {
        digits_number(s.drop_last(), radix) * radix + digit_value(s.last())
    }
}

/// The digits of an unsigned number's text: without its one leading `+`.
pub open spec fn unsigned_digits(s: Seq<char>) -> Seq<char> {
    if s.len() > 0 && s[0] == '+' {
        s.drop_first()
    } else {
        s
    }
}

/// Whether `s` is the text of a `u32` in `radix`: an optional `+` and at
/// least one digit below the radix, of a value that fits.
pub open spec fn is_u32_text(s: Seq<char>, radix: nat) -> bool {
    let d = unsigned_digits(s);
    &&& d.len() > 0
    &&& forall|i: int| 0 <= i < d.len() ==> 0 <= digit_value(#[trigger] d[i]) < radix
    &&& digits_number(d, radix) <= u32::MAX
}

/// The message of the error `u32::from_str_radix` gives for `s`.
pub uninterp spec fn u32_parse_error(s: Seq<char>, radix: u32) -> Seq<char>;

/// Parses `s` as a `u32` in `radix` (std's `u32::from_str_radix`); the
/// error is given as its message.  As documented, the text must be an
/// optional `+` followed by digits of the radix, and the value must fit.
#[verifier::external_body]
pub(crate) fn u32_from_str_radix(s: &str, radix: u32) -> (r: Result<u32, String>)
    requires
        2 <= radix <= 36,
    ensures
        r is Ok <==> is_u32_text(s@, radix as nat),
        r is Ok ==> r->Ok_0 == digits_number(unsigned_digits(s@), radix as nat),
        r is Err ==> r->Err_0@ == u32_parse_error(s@, radix),
{
    u32::from_str_radix(s, radix).map_err(|e| format!("{e}"))
}

} // verus!
