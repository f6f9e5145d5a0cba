//! Character-level helpers on strings, stated over `Seq<char>`.

use vstd::prelude::*;

verus! {

/// Appends one character to a `String` (std's `String::push`).
#[verifier::external_body]
pub(crate) fn string_push(s: &mut String, c: char)
    ensures
        final(s)@ == old(s)@.push(c),
{
    s.push(c);
}

/// The characters of `s`, in order.
pub fn chars_of(s: &str) -> (v: Vec<char>)
    ensures
        v@ == s@,
{
    let mut v: Vec<char> = Vec::new();
    for c in it: s.chars()
        invariant
            v@ == it.seq().take(it.index() as int),
            it.seq() == s@,
    {
        v.push(c);
    }
    v
}

/// A `String` holding exactly the characters of `v`.
pub fn string_from_chars(v: &[char]) -> (s: String)
    ensures
        s@ == v@,
{
    let mut s = String::new();
    for i in 0..v.len()
        invariant
            s@ == v@.take(i as int),
    {
        string_push(&mut s, v[i]);
        assert(v@.take(i + 1) == v@.take(i as int).push(v@[i as int]));
    }
    assert(v@.take(v@.len() as int) == v@);
    s
}

} // verus!

verus! {

/// Whether `a` comes strictly before `b` in lexicographic order of code
/// points.  For strings this is the order of `str`'s `Ord`: UTF-8 keeps the
/// order of code points.
pub open spec fn lex_lt(a: Seq<char>, b: Seq<char>) -> bool
    decreases a.len(),
{
    if a.len() == 0 {
        b.len() > 0
    } else if b.len() == 0 {
        false
    } else if a[0] != b[0] {
        a[0] < b[0]
    } else {
        lex_lt(a.drop_first(), b.drop_first())
    }
}

/// Whether `a` comes strictly before `b`.
pub fn chars_lt(a: &[char], b: &[char]) -> (r: bool)
    ensures
        r == lex_lt(a@, b@),
{
    let mut i: usize = 0;
    assert(a@.skip(0) == a@ && b@.skip(0) == b@);
    while i < a.len() && i < b.len() && a[i] == b[i]
        invariant
            i <= a.len(),
            i <= b.len(),
            lex_lt(a@, b@) == lex_lt(a@.skip(i as int), b@.skip(i as int)),
        decreases a.len() - i,
    {
        proof {
            assert(a@.skip(i as int).drop_first() == a@.skip(i + 1));
            assert(b@.skip(i as int).drop_first() == b@.skip(i + 1));
        }
        i = i + 1;
    }
    if i == a.len() {
        i < b.len()
    } else if i == b.len() {
        false
    } else {
        a[i] < b[i]
    }
}

/// `lex_lt` is a strict total order.
pub proof fn lemma_lex_lt_total(a: Seq<char>, b: Seq<char>)
    ensures
        a != b ==> (lex_lt(a, b) || lex_lt(b, a)),
        !(lex_lt(a, b) && lex_lt(b, a)),
        !lex_lt(a, a),
    decreases a.len(),
{
    if a.len() > 0 {
        lemma_lex_lt_total(a.drop_first(), a.drop_first());
    }
    if a.len() > 0 && b.len() > 0 {
        lemma_lex_lt_total(a.drop_first(), b.drop_first());
        if a[0] == b[0] && a != b {
            assert(a.drop_first() != b.drop_first()) by {
                if a.drop_first() == b.drop_first() {
                    assert(a == seq![a[0]] + a.drop_first());
                    assert(b == seq![b[0]] + b.drop_first());
                }
            }
        }
    } else if a.len() == 0 && b.len() == 0 {
        assert(a == b);
    }
}

/// `lex_lt` is transitive.
pub proof fn lemma_lex_lt_transitive(a: Seq<char>, b: Seq<char>, c: Seq<char>)
    requires
        lex_lt(a, b),
        lex_lt(b, c),
    ensures
        lex_lt(a, c),
    decreases a.len(),
{
    if a.len() > 0 && b.len() > 0 && c.len() > 0 && a[0] == b[0] && b[0] == c[0] {
        lemma_lex_lt_transitive(a.drop_first(), b.drop_first(), c.drop_first());
    }
}

/// Whether `s` starts with `prefix`.
pub fn starts_with_chars(s: &[char], prefix: &[char]) -> (r: bool)
    ensures
        r == prefix@.is_prefix_of(s@),
{
    if prefix.len() > s.len() {
        return false;
    }
    let mut i: usize = 0;
    while i < prefix.len()
        invariant
            i <= prefix.len() <= s.len(),
            forall|j: int| 0 <= j < i ==> prefix@[j] == s@[j],
        decreases prefix.len() - i,
    {
        if prefix[i] != s[i] {
            return false;
        }
        i = i + 1;
    }
    assert(prefix@ == s@.take(prefix@.len() as int));
    true
}

/// Whether the strings `a` and `b` hold the same characters.
pub fn chars_equal(a: &[char], b: &[char]) -> (r: bool)
    ensures
        r == (a@ == b@),
{
    if a.len() != b.len() {
        return false;
    }
    let mut i: usize = 0;
    while i < a.len()
        invariant
            i <= a.len() == b.len(),
            forall|j: int| 0 <= j < i ==> a@[j] == b@[j],
        decreases a.len() - i,
    {
        if a[i] != b[i] {
            return false;
        }
        i = i + 1;
    }
    assert(a@ == b@);
    true
}

/// Whether `a` and `b` hold the same text.
pub fn same_text(a: &str, b: &str) -> (r: bool)
    ensures
        r == (a@ == b@),
{
    let x = chars_of(a);
    let y = chars_of(b);
    chars_equal(x.as_slice(), y.as_slice())
}

/// The length in bytes of the UTF-8 encoding of `s`, which is what
/// `str::len` and `String::len` give.
pub open spec fn byte_len(s: Seq<char>) -> nat {
    (vstd::utf8::encode_utf8(s).len() as usize) as nat
}

} // verus!

verus! {

/// A `String` holding the characters `v[start..end]`.
pub fn string_from_range(v: &[char], start: usize, end: usize) -> (s: String)
    requires
        start <= end <= v.len(),
    ensures
        s@ == v@.subrange(start as int, end as int),
{
    let mut s = String::new();
    let mut i = start;
    while i < end
        invariant
            start <= i <= end <= v.len(),
            s@ == v@.subrange(start as int, i as int),
        decreases end - i,
    {
        string_push(&mut s, v[i]);
        assert(v@.subrange(start as int, i + 1) == v@.subrange(start as int, i as int).push(
            v@[i as int],
        ));
        i = i + 1;
    }
    s
}

} // verus!

verus! {

/// The characters that `u8::is_ascii_whitespace` accepts: space, tab, line
/// feed, form feed and carriage return.
pub open spec fn is_ascii_whitespace(c: char) -> bool {
    c == ' ' || c == '\t' || c == '\n' || c == '\x0C' || c == '\r'
}

/// Whether `c` is ASCII whitespace.
pub fn is_ascii_whitespace_char(c: char) -> (r: bool)
    ensures
        r == is_ascii_whitespace(c),
{
    c == ' ' || c == '\t' || c == '\n' || c == '\x0C' || c == '\r'
}

/// `s` without its trailing ASCII whitespace, as `str::trim_ascii_end` gives.
pub open spec fn trim_ascii_end(s: Seq<char>) -> Seq<char>
    decreases s.len(),
{
    if s.len() > 0 && is_ascii_whitespace(s.last()) {
        trim_ascii_end(s.drop_last())
    } else {
        s
    }
}

/// The characters of `s` without trailing ASCII whitespace.
pub fn trim_ascii_end_chars(s: &str) -> (r: Vec<char>)
    ensures
        r@ == trim_ascii_end(s@),
{
    let mut v = chars_of(s);
    while v.len() > 0 && is_ascii_whitespace_char(v[v.len() - 1])
        invariant
            trim_ascii_end(v@) == trim_ascii_end(s@),
        decreases v.len(),
    {
        let ghost before = v@;
        v.pop();
        assert(v@ == before.drop_last());
    }
    v
}

} // verus!

verus! {

/// Whether, at character position `i`, every name after the first has a
/// character, and that character is the first name's.
pub open spec fn column_agrees(names: Seq<Seq<char>>, i: int) -> bool {
    forall|k: int| 1 <= k < names.len() ==> i < (#[trigger] names[k]).len() && names[k][i] == names[0][i]
}

/// How many positions from `start` on the first name has a character and all
/// names agree.
pub open spec fn common_run(names: Seq<Seq<char>>, start: int) -> nat
    decreases names[0].len() - start,
{
    if 0 <= start < names[0].len() && column_agrees(names, start) {
        1 + common_run(names, start + 1)
    } else {
        0
    }
}

/// The completion of `prefix` against `names`: `prefix` itself when there is
/// no name, the name when there is one, and otherwise `prefix` extended by the
/// characters of the first name on which all names agree, from the
/// position after `prefix` on (positions count characters).
pub open spec fn longest_common_prefix_spec(prefix: Seq<char>, names: Seq<Seq<char>>) -> Seq<
    char,
> {
    if names.len() == 0 {
        prefix
    } else if names.len() == 1 {
        names[0]
    } else {
        let b = prefix.len() as int;
        let n = common_run(names, b);
        if n == 0 {
            prefix
        } else {
            prefix + names[0].subrange(b, b + n)
        }
    }
}

proof fn lemma_common_run_step(names: Seq<Seq<char>>, start: int)
    requires
        0 <= start < names[0].len(),
        column_agrees(names, start),
    ensures
        common_run(names, start) == 1 + common_run(names, start + 1),
{
}

proof fn lemma_common_run_bound(names: Seq<Seq<char>>, start: int)
    requires
        0 <= start,
    ensures
        common_run(names, start) > 0 ==> start + common_run(names, start) <= names[0].len(),
    decreases names[0].len() - start,
{
    if 0 <= start < names[0].len() && column_agrees(names, start) {
        lemma_common_run_bound(names, start + 1);
    }
}

/// The longest common continuation of `prefix` among `names`, see
/// `longest_common_prefix_spec`.
pub fn longest_common_prefix(prefix: &str, names: &[&String]) -> (r: String)
    ensures
        r@ == longest_common_prefix_spec(prefix@, names@.map_values(|s: &String| s@)),
{
    let ghost ns = names@.map_values(|s: &String| s@);
    if names.len() == 0 {
        return prefix.to_owned();
    }
    if names.len() == 1 {
        return names[0].clone();
    }
    let first = chars_of(names[0].as_str());
    let mut others: Vec<Vec<char>> = Vec::new();
    for k in 0..names.len()
        invariant
            others@.len() == k,
            k <= names@.len(),
            ns == names@.map_values(|s: &String| s@),
            forall|j: int| 0 <= j < k ==> #[trigger] others@[j]@ == ns[j],
    {
        others.push(chars_of(names[k].as_str()));
    }
    let mut common = chars_of(prefix);
    let start = common.len();
    let ghost b = start as int;
    let mut i = start;
    loop
        invariant_except_break
            b <= i,
            ns == names@.map_values(|s: &String| s@),
            ns.len() == names@.len() >= 2,
            first@ == ns[0],
            b == prefix@.len(),
            others@.len() == ns.len(),
            forall|j: int| 0 <= j < ns.len() ==> #[trigger] others@[j]@ == ns[j],
            i > b ==> i <= first@.len(),
            i > b ==> common@ == prefix@ + first@.subrange(b, i as int),
            i == b ==> common@ == prefix@,
            common_run(ns, b) == (i - b) + common_run(ns, i as int),
        ensures
            common_run(ns, b) == i - b,
            i > b ==> common@ == prefix@ + first@.subrange(b, i as int),
            i == b ==> common@ == prefix@,
        decreases first@.len() - i,
    {
        if i >= first.len() {
            break;
        }
        let mut ok = true;
        let mut k: usize = 1;
        while k < names.len()
            invariant
                1 <= k <= names@.len(),
                i < first@.len(),
                ns.len() == names@.len(),
                first@ == ns[0],
                others@.len() == ns.len(),
                forall|j: int| 0 <= j < ns.len() ==> #[trigger] others@[j]@ == ns[j],
                ok ==> forall|j: int|
                    1 <= j < k ==> i < (#[trigger] ns[j]).len() && ns[j][i as int] == ns[0][i as int],
                !ok ==> !column_agrees(ns, i as int),
            decreases names@.len() - k,
        {
            if ok {
                let agrees = i < others[k].len() && others[k][i] == first[i];
                if !agrees {
                    ok = false;
                    assert(!(i < ns[k as int].len() && ns[k as int][i as int] == ns[0][i as int]));
                }
            }
            k = k + 1;
        }
        if !ok {
            break;
        }
        proof {
            lemma_common_run_step(ns, i as int);
        }
        let ghost before = common@;
        common.push(first[i]);
        proof {
            if i > b {
                assert(first@.subrange(b, i + 1) == first@.subrange(b, i as int).push(
                    first@[i as int],
                ));
            } else {
                assert(first@.subrange(b, i + 1) == seq![first@[i as int]]);
            }
        }
        i = i + 1;
    }
    proof {
        lemma_common_run_bound(ns, b);
    }
    crate::text::string_from_chars(common.as_slice())
}

} // verus!

verus! {

/// The characters with the Unicode `White_Space` property, which is what
/// `char::is_whitespace` tests.
pub open spec fn is_unicode_whitespace(c: char) -> bool {
    ('\t' <= c && c <= '\r') || c == ' ' || c == '\u{85}' || c == '\u{A0}' || c == '\u{1680}' || (
    '\u{2000}' <= c && c <= '\u{200A}') || c == '\u{2028}' || c == '\u{2029}' || c == '\u{202F}'
        || c == '\u{205F}' || c == '\u{3000}'
}

/// Whether `c` is Unicode whitespace.
pub fn is_whitespace_char(c: char) -> (r: bool)
    ensures
        r == is_unicode_whitespace(c),
{
    ('\t' <= c && c <= '\r') || c == ' ' || c == '\u{85}' || c == '\u{A0}' || c == '\u{1680}' || (
    '\u{2000}' <= c && c <= '\u{200A}') || c == '\u{2028}' || c == '\u{2029}' || c == '\u{202F}'
        || c == '\u{205F}' || c == '\u{3000}'
}

/// `s` without trailing whitespace, as `str::trim_end` gives.
pub open spec fn trim_end(s: Seq<char>) -> Seq<char>
    decreases s.len(),
{
    if s.len() > 0 && is_unicode_whitespace(s.last()) {
        trim_end(s.drop_last())
    } else {
        s
    }
}

/// `s` without leading whitespace, as `str::trim_start` gives.
pub open spec fn trim_start(s: Seq<char>) -> Seq<char>
    decreases s.len(),
{
    if s.len() > 0 && is_unicode_whitespace(s[0]) {
        trim_start(s.drop_first())
    } else {
        s
    }
}

/// `s` without leading and trailing whitespace, as `str::trim` gives.
pub open spec fn trim(s: Seq<char>) -> Seq<char> {
    trim_end(trim_start(s))
}

/// The characters of `s` without trailing whitespace.
pub fn trim_end_chars(s: &[char]) -> (r: Vec<char>)
    ensures
        r@ == trim_end(s@),
{
    let mut end = s.len();
    assert(s@.take(end as int) == s@);
    while end > 0 && is_whitespace_char(s[end - 1])
        invariant
            end <= s.len(),
            trim_end(s@.take(end as int)) == trim_end(s@),
        decreases end,
    {
        assert(s@.take(end as int).drop_last() == s@.take(end - 1));
        end = end - 1;
    }
    let mut r: Vec<char> = Vec::new();
    for i in 0..end
        invariant
            end <= s.len(),
            r@ == s@.take(i as int),
    {
        r.push(s[i]);
        assert(s@.take(i + 1) == s@.take(i as int).push(s@[i as int]));
    }
    r
}

/// The characters `s[start..end]` without leading or trailing whitespace.
pub fn trim_range(s: &[char], start: usize, end: usize) -> (r: Vec<char>)
    requires
        start <= end <= s.len(),
    ensures
        r@ == trim(s@.subrange(start as int, end as int)),
{
    let mut a = start;
    while a < end && is_whitespace_char(s[a])
        invariant
            start <= a <= end <= s.len(),
            trim_start(s@.subrange(a as int, end as int)) == trim_start(
                s@.subrange(start as int, end as int),
            ),
        decreases end - a,
    {
        assert(s@.subrange(a as int, end as int).drop_first() == s@.subrange(a + 1, end as int));
        a = a + 1;
    }
    let mut piece: Vec<char> = Vec::new();
    let mut i = a;
    while i < end
        invariant
            start <= a <= i <= end <= s.len(),
            piece@ == s@.subrange(a as int, i as int),
        decreases end - i,
    {
        piece.push(s[i]);
        assert(s@.subrange(a as int, i + 1) == s@.subrange(a as int, i as int).push(s@[i as int]));
        i = i + 1;
    }
    trim_end_chars(piece.as_slice())
}

} // verus!

verus! {

/// The UTF-8 bytes of a character sequence.
pub open spec fn utf8(s: Seq<char>) -> Seq<u8> {
    vstd::utf8::encode_utf8(s)
}

/// Inserts `c` at byte position `idx` (std's `String::insert`), which must
/// be on a character boundary.
#[verifier::external_body]
pub(crate) fn string_insert(s: &mut String, idx: usize, c: char)
    requires
        vstd::utf8::is_char_boundary(utf8(old(s)@), idx as int),
    ensures
        utf8(final(s)@) == utf8(old(s)@).take(idx as int) + utf8(seq![c]) + utf8(old(s)@).skip(
            idx as int,
        ),
{
    s.insert(idx, c);
}

/// Removes the character that starts at byte position `idx` and returns
/// it (std's `String::remove`); `idx` must be on a character boundary and
/// before the end.
#[verifier::external_body]
pub(crate) fn string_remove(s: &mut String, idx: usize) -> (r: char)
    requires
        vstd::utf8::is_char_boundary(utf8(old(s)@), idx as int),
        idx < utf8(old(s)@).len(),
    ensures
        utf8(final(s)@) == utf8(old(s)@).take(idx as int) + vstd::utf8::pop_first_scalar(
            utf8(old(s)@).skip(idx as int),
        ),
        utf8(old(s)@).skip(idx as int) == utf8(seq![r]) + vstd::utf8::pop_first_scalar(
            utf8(old(s)@).skip(idx as int),
        ),
{
    s.remove(idx)
}

/// Appends `t` to `s` (std's `String::push_str`).
pub fn string_push_str(s: &mut String, t: &str)
    ensures
        final(s)@ == old(s)@ + t@,
{
    s.append(t);
}

} // verus!

verus! {

proof fn lemma_common_run_agrees(names: Seq<Seq<char>>, start: int)
    requires
        0 <= start,
    ensures
        forall|j: int| start <= j < start + common_run(names, start) ==> column_agrees(names, j),
    decreases names[0].len() - start,
{
    if 0 <= start < names[0].len() && column_agrees(names, start) {
        lemma_common_run_agrees(names, start + 1);
    }
}

/// When `prefix` starts every name, its completion still starts with
/// `prefix`, and every name starts with the completion: the prefix is
/// prolonged only as far as all names agree.
pub proof fn law_completion_is_common_prefix(prefix: Seq<char>, names: Seq<Seq<char>>)
    requires
        names.len() >= 1,
        forall|k: int| 0 <= k < names.len() ==> prefix.is_prefix_of(#[trigger] names[k]),
    ensures
        prefix.is_prefix_of(longest_common_prefix_spec(prefix, names)),
        forall|k: int|
            0 <= k < names.len() ==> longest_common_prefix_spec(prefix, names).is_prefix_of(
                #[trigger] names[k],
            ),
{
    if names.len() >= 2 {
        let b = prefix.len() as int;
        let n = common_run(names, b);
        lemma_common_run_bound(names, b);
        lemma_common_run_agrees(names, b);
        let r = longest_common_prefix_spec(prefix, names);
        if n > 0 {
            assert(prefix.is_prefix_of(names[0]));
            assert(r == names[0].take(b + n)) by {
                assert(prefix == names[0].take(b));
            }
            assert forall|k: int| 0 <= k < names.len() implies r.is_prefix_of(#[trigger] names[k]) by {
                if k > 0 {
                    assert(prefix.is_prefix_of(names[k]));
                    assert forall|j: int| 0 <= j < r.len() implies r[j] == names[k][j] by {
                        if j >= b {
                            assert(column_agrees(names, j));
                        } else {
                            assert(prefix[j] == names[k][j]);
                            assert(prefix[j] == names[0][j]);
                        }
                    }
                    assert(b + n <= names[k].len()) by {
                        assert(column_agrees(names, b + n - 1));
                    }
                }
            }
            assert(r.take(b) == prefix);
        }
    } else {
        assert(longest_common_prefix_spec(prefix, names) == names[0]);
    }
}

} // verus!

verus! {

/// What std's `String::from_utf8_lossy` makes of `bytes`: their text, with
/// each invalid sequence replaced by U+FFFD.
pub uninterp spec fn lossy_utf8(bytes: Seq<u8>) -> Seq<char>;

/// `bytes` as text (std's `String::from_utf8_lossy`): valid UTF-8 is
/// decoded as it is; invalid sequences become U+FFFD, which is left unstated.
#[verifier::external_body]
pub(crate) fn string_from_utf8_lossy(bytes: &[u8]) -> (r: String)
    ensures
        r@ == lossy_utf8(bytes@),
        vstd::utf8::valid_utf8(bytes@) ==> r@ == vstd::utf8::decode_utf8(bytes@),
{
    String::from_utf8_lossy(bytes).into_owned()
}

/// What std's `str::from_utf8` accepts: exactly the valid UTF-8 byte
/// sequences, decoded.
#[verifier::external_body]
pub(crate) fn str_from_utf8(bytes: &[u8]) -> (r: Option<String>)
    ensures
        match r {
            Some(s) => vstd::utf8::valid_utf8(bytes@) && s@ == vstd::utf8::decode_utf8(bytes@),
            None => !vstd::utf8::valid_utf8(bytes@),
        },
{
    std::str::from_utf8(bytes).ok().map(|s| s.to_owned())
}

/// What `{:?}` writes for the text `s`: std's `Debug` for `str`, the text in
/// double quotes with quotes, backslashes and special characters escaped.
pub uninterp spec fn debug_text(s: Seq<char>) -> Seq<char>;

/// Whether `{:?}` writes `c` as it is inside a string: printable ASCII
/// other than the double quote and the backslash, which `char::escape_debug`
/// leaves alone.
pub open spec fn plain_in_debug(c: char) -> bool {
    0x20 <= (c as u32) <= 0x7e && c != '"' && c != '\\'
}

/// `s` as `{:?}` writes it (std's `Debug` for `str`): text of plain
/// characters (see `plain_in_debug`) is only put in double quotes.
#[verifier::external_body]
pub(crate) fn debug_string(s: &str) -> (r: String)
    ensures
        r@ == debug_text(s@),
        (forall|i: int| 0 <= i < s@.len() ==> plain_in_debug(#[trigger] s@[i])) ==> r@ == seq!['"'] + s@ + seq!['"'],
{
    format!("{s:?}")
}

/// `s` with every `from` replaced by `to`.
pub open spec fn replace_char(s: Seq<char>, from: char, to: char) -> Seq<char> {
    s.map_values(|c: char| if c == from { to } else { c })
}

/// `s` with every `from` replaced by `to` (as `str::replace` does with
/// one-character patterns).
pub fn replace_char_exec(s: &str, from: char, to: char) -> (r: String)
    ensures
        r@ == replace_char(s@, from, to),
{
    let v = chars_of(s);
    let mut out: Vec<char> = Vec::new();
    for i in 0..v.len()
        invariant
            out@ == replace_char(v@.take(i as int), from, to),
    {
        let c = v[i];
        out.push(if c == from { to } else { c });
        assert(replace_char(v@.take(i + 1), from, to) =~= replace_char(v@.take(i as int), from, to).push(
            if c == from { to } else { c },
        ));
    }
    assert(v@.take(v@.len() as int) == v@);
    string_from_chars(out.as_slice())
}

} // verus!

verus! {

/// The UTF-8 bytes of `s`.
pub fn utf8_bytes(s: &str) -> (r: Vec<u8>)
    ensures
        r@ == utf8(s@),
{
    let b = s.as_bytes();
    let mut r: Vec<u8> = Vec::new();
    for i in 0..b.len()
        invariant
            b@ == utf8(s@),
            r@ == b@.take(i as int),
    {
        r.push(b[i]);
        assert(b@.take(i + 1) == b@.take(i as int).push(b@[i as int]));
    }
    assert(b@.take(b@.len() as int) == b@);
    r
}

} // verus!

verus! {

/// The parts joined with `sep` between each two, as `[T]::join` gives.
pub open spec fn join_with(parts: Seq<Seq<char>>, sep: Seq<char>) -> Seq<char>
    decreases parts.len(),
{
    if parts.len() == 0 {
        Seq::empty()
    } else if parts.len() == 1 {
        parts[0]
    } else {
        join_with(parts.drop_last(), sep) + sep + parts.last()
    }
}

/// The strings joined with `sep` between each two.
pub fn join(parts: &[String], sep: &str) -> (r: String)
    ensures
        r@ == join_with(parts@.map_values(|s: String| s@), sep@),
{
    let ghost ps = parts@.map_values(|s: String| s@);
    let mut r = String::new();
    for i in 0..parts.len()
        invariant
            ps == parts@.map_values(|s: String| s@),
            r@ == join_with(ps.take(i as int), sep@),
    {
        assert(ps.take(i + 1).drop_last() == ps.take(i as int));
        assert(ps.take(i + 1).last() == parts@[i as int]@);
        if i > 0 {
            r.append(sep);
        } else {
            assert(ps.take(1) == seq![ps[0]]);
        }
        r.append(parts[i].as_str());
    }
    assert(ps.take(parts@.len() as int) == ps);
    r
}

} // verus!
