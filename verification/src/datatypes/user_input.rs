//! What a committed input line asks for.

use vstd::prelude::*;

use crate::command::library::named;
use crate::command::library::views;
use crate::command::CommandLibrary;
use crate::seqs::first_index;
use crate::seqs::lemma_first_index;
use crate::seqs::lemma_first_index_bounds;
use crate::text::chars_of;
use crate::text::string_from_chars;
use crate::text::string_from_range;
use crate::text::trim;
use crate::text::trim_ascii_end;
use crate::text::trim_range;

verus! {

/// Where the output of a command goes.
pub enum SaveToFile {
    /// Shown only.
    No,
    /// The raw bytes are written to the file at this path.
    AsBin(String),
    /// The text shown is written to the file at this path.
    AsText(String),
    /// The raw bytes are written to standard output.
    ToStdout,
}

/// Where the output of a command goes, as a value.
pub enum SaveTarget {
    No,
    AsBin(Seq<char>),
    AsText(Seq<char>),
    ToStdout,
}

impl View for SaveToFile {
    type V = SaveTarget;

    open spec fn view(&self) -> SaveTarget {
        match self {
            SaveToFile::No => SaveTarget::No,
            SaveToFile::AsBin(p) => SaveTarget::AsBin(p@),
            SaveToFile::AsText(p) => SaveTarget::AsText(p@),
            SaveToFile::ToStdout => SaveTarget::ToStdout,
        }
    }
}

/// What the user's input is.
pub enum InputType {
    /// Not a known command, but it starts with `/` so it likely is a CoAP
    /// end-point: sent as a configuration message.
    RawCoap(String),
    /// Not a known command: sent as a diagnostic message.
    RawCommand(String),
    /// A known command: its name, the command line, and where its output
    /// goes.
    Command(String, String, SaveToFile),
}

/// What the user's input is, as a value.
pub enum InputKind {
    RawCoap(Seq<char>),
    RawCommand(Seq<char>),
    Command(Seq<char>, Seq<char>, SaveTarget),
}

impl View for InputType {
    type V = InputKind;

    open spec fn view(&self) -> InputKind {
        match self {
            InputType::RawCoap(s) => InputKind::RawCoap(s@),
            InputType::RawCommand(s) => InputKind::RawCommand(s@),
            InputType::Command(c, l, f) => InputKind::Command(c@, l@, f@),
        }
    }
}

/// The positions `0..n` in order.
pub open spec fn positions(n: int) -> Seq<int> {
    Seq::new(if n > 0 { n as nat } else { 0 }, |i: int| i)
}

/// The first position at which `s` holds `%>`, or `s.len() - 1` (at least
/// zero) when there is none.
pub open spec fn bin_redirect_at(s: Seq<char>) -> int {
    first_index(positions(s.len() - 1), |i: int| s[i] == '%' && s[i + 1] == '>')
}

/// The first position at which `s` holds `>`, or `s.len()`.
pub open spec fn text_redirect_at(s: Seq<char>) -> int {
    first_index(s, |c: char| c == '>')
}

/// An input cut into the command line and where its output goes: at the
/// first `%>` the rest, trimmed, names a file for the raw bytes (`-` for
/// standard output); else at the first `>` the rest, trimmed, names a file
/// for the text.
pub open spec fn split_redirect(input: Seq<char>) -> (Seq<char>, SaveTarget) {
    let b = bin_redirect_at(input);
    let t = text_redirect_at(input);
    if input.len() >= 2 && b < input.len() - 1 {
        let path = trim(input.skip(b + 2));
        if path == seq!['-'] {
            (input.take(b), SaveTarget::ToStdout)
        } else {
            (input.take(b), SaveTarget::AsBin(path))
        }
    } else if t < input.len() {
        (input.take(t), SaveTarget::AsText(trim(input.skip(t + 1))))
    } else {
        (input, SaveTarget::No)
    }
}

/// Whether `s` holds `%>` at position `i`.
pub open spec fn bin_marker_at(s: Seq<char>, i: int) -> bool {
    0 <= i && i + 1 < s.len() && s[i] == '%' && s[i + 1] == '>'
}

proof fn lemma_no_bin_marker(s: Seq<char>)
    requires
        forall|i: int| !bin_marker_at(s, i),
    ensures
        !(s.len() >= 2 && bin_redirect_at(s) < s.len() - 1),
{
    if s.len() >= 2 {
        let ps = positions(s.len() - 1);
        let p = |i: int| s[i] == '%' && s[i + 1] == '>';
        assert forall|j: int| 0 <= j < ps.len() implies !p(#[trigger] ps[j]) by {
            assert(ps[j] == j);
            assert(!bin_marker_at(s, j));
        }
        lemma_first_index(ps, p, ps.len() as int);
    }
}

/// A line with `>` but no `%>` sends the command's text to a file: the
/// command line is what comes before the first `>`, and the file is named
/// by the rest after it, trimmed.
pub proof fn law_text_redirect(input: Seq<char>, t: int)
    requires
        forall|i: int| !bin_marker_at(input, i),
        0 <= t < input.len(),
        input[t] == '>',
        forall|j: int| 0 <= j < t ==> input[j] != '>',
    ensures
        split_redirect(input) == (input.take(t), SaveTarget::AsText(trim(input.skip(t + 1)))),
{
    lemma_no_bin_marker(input);
    lemma_first_index(input, |c: char| c == '>', t);
}

/// A line with neither `>` nor `%>` is the command line as it is, with no
/// file for its output.
pub proof fn law_no_redirect(input: Seq<char>)
    requires
        forall|j: int| 0 <= j < input.len() ==> input[j] != '>',
    ensures
        split_redirect(input) == (input, SaveTarget::No),
{
    assert forall|i: int| !bin_marker_at(input, i) by {
        if bin_marker_at(input, i) {
            assert(input[i + 1] == '>');
        }
    }
    lemma_no_bin_marker(input);
    lemma_first_index(input, |c: char| c == '>', input.len() as int);
}

/// A line with `%>` sends the raw answer: the command line is what comes
/// before the first `%>`, and the rest after it, trimmed, names the file,
/// or standard output when it is `-`.
pub proof fn law_bin_redirect(input: Seq<char>, b: int)
    requires
        bin_marker_at(input, b),
        forall|i: int| 0 <= i < b ==> !bin_marker_at(input, i),
    ensures
        split_redirect(input) == (input.take(b), if trim(input.skip(b + 2)) == seq!['-'] {
            SaveTarget::ToStdout
        } else {
            SaveTarget::AsBin(trim(input.skip(b + 2)))
        }),
{
    let ps = positions(input.len() - 1);
    let p = |i: int| input[i] == '%' && input[i + 1] == '>';
    assert forall|j: int| 0 <= j < b implies !p(#[trigger] ps[j]) by {
        assert(ps[j] == j);
        assert(!bin_marker_at(input, j));
    }
    assert(ps[b] == b);
    lemma_first_index(ps, p, b);
}

/// The text up to the first space.
pub open spec fn first_word(s: Seq<char>) -> Seq<char> {
    s.take(first_index(s, |c: char| c == ' '))
}

/// The input as a raw message: unchanged when it starts with `/`, and
/// otherwise ended by a newline.
pub open spec fn raw_input(input: Seq<char>) -> InputKind {
    if input.len() > 0 && input[0] == '/' {
        InputKind::RawCoap(input)
    } else if input.len() > 0 && input.last() == '\n' {
        InputKind::RawCommand(input)
    } else {
        InputKind::RawCommand(input.push('\n'))
    }
}

/// Cuts `input` into the command line and where the output goes, see
/// `split_redirect`.
pub fn split_redirect_exec(input: &Vec<char>) -> (r: (Vec<char>, SaveToFile))
    ensures
        (r.0@, r.1@) == split_redirect(input@),
{
    let n = input.len();
    let ghost pb = |i: int| input@[i] == '%' && input@[i + 1] == '>';
    let ghost pos = positions(n - 1);
    let mut b: usize = 0;
    if n >= 2 {
        while b < n - 1 && !(input[b] == '%' && input[b + 1] == '>')
            invariant
                n == input@.len() >= 2,
                b <= n - 1,
                pos == positions(n - 1),
                pb == (|i: int| input@[i] == '%' && input@[i + 1] == '>'),
                forall|j: int| 0 <= j < b ==> !pb(#[trigger] pos[j]),
            decreases n - b,
        {
            b = b + 1;
        }
        proof {
            lemma_first_index(pos, pb, b as int);
        }
        if b < n - 1 {
            let cmd = take_chars(input, b);
            let path = trim_range(input.as_slice(), b + 2, n);
            assert(input@.subrange(b + 2, n as int) == input@.skip(b + 2));
            if path.len() == 1 && path[0] == '-' {
                assert(path@ == seq!['-']);
                return (cmd, SaveToFile::ToStdout);
            } else {
                assert(path@ != seq!['-']);
                return (cmd, SaveToFile::AsBin(string_from_chars(path.as_slice())));
            }
        }
    }
    let mut t: usize = 0;
    while t < n && input[t] != '>'
        invariant
            n == input@.len(),
            t <= n,
            forall|j: int| 0 <= j < t ==> !((|c: char| c == '>')(#[trigger] input@[j])),
        decreases n - t,
    {
        t = t + 1;
    }
    proof {
        lemma_first_index(input@, |c: char| c == '>', t as int);
    }
    if t < n {
        let cmd = take_chars(input, t);
        let path = trim_range(input.as_slice(), t + 1, n);
        assert(input@.subrange(t + 1, n as int) == input@.skip(t + 1));
        (cmd, SaveToFile::AsText(string_from_chars(path.as_slice())))
    } else {
        (input.clone(), SaveToFile::No)
    }
}

fn take_chars(v: &Vec<char>, k: usize) -> (r: Vec<char>)
    requires
        k <= v.len(),
    ensures
        r@ == v@.take(k as int),
{
    let mut r: Vec<char> = Vec::new();
    for i in 0..k
        invariant
            k <= v@.len(),
            r@ == v@.take(i as int),
    {
        r.push(v[i]);
        assert(v@.take(i + 1) == v@.take(i as int).push(v@[i as int]));
    }
    r
}

/// The text up to the first space.
pub fn first_word_exec(s: &Vec<char>) -> (r: String)
    ensures
        r@ == first_word(s@),
{
    let mut k: usize = 0;
    while k < s.len() && s[k] != ' '
        invariant
            k <= s@.len(),
            forall|j: int| 0 <= j < k ==> !((|c: char| c == ' ')(#[trigger] s@[j])),
        decreases s@.len() - k,
    {
        k = k + 1;
    }
    proof {
        lemma_first_index(s@, |c: char| c == ' ', k as int);
    }
    string_from_range(s.as_slice(), 0, k)
}

/// The input as a raw message, see `raw_input`.
pub fn raw_input_exec(input: &str) -> (r: InputType)
    ensures
        r@ == raw_input(input@),
{
    let m = chars_of(input);
    if m.len() > 0 && m[0] == '/' {
        InputType::RawCoap(input.to_owned())
    } else if m.len() > 0 && m[m.len() - 1] == '\n' {
        InputType::RawCommand(input.to_owned())
    } else {
        let mut cmd = input.to_owned();
        crate::text::string_push(&mut cmd, '\n');
        InputType::RawCommand(cmd)
    }
}

impl InputType {
    /// Classifies a committed input line: a line whose first word names an
    /// available command is that command, with its output redirected as
    /// `split_redirect` says; any other line is a raw message.
    pub fn from_raw(user_input: &str, command_library: &CommandLibrary) -> (r: Self)
        ensures
            ({
                let (line, target) = split_redirect(user_input@);
                let avail = command_library.available();
                let i = first_index(avail, named(trim_ascii_end(first_word(line))));
                if i < avail.len() {
                    r@ == InputKind::Command(avail[i].cmd, line, target)
                } else {
                    r@ == raw_input(user_input@)
                }
            }),
    {
        let m = chars_of(user_input);
        let (line, file) = split_redirect_exec(&m);
        let word = first_word_exec(&line);
        let maybe_cmd = command_library.find_by_cmd(word.as_str());
        match maybe_cmd {
            Some(cmd) => InputType::Command(cmd.cmd.clone(), string_from_chars(line.as_slice()), file),
            None => raw_input_exec(user_input),
        }
    }
}

} // verus!
