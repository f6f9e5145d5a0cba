//! How incoming text is cut into display lines.
//!
//! A device may send one output line in several messages, and one message may
//! hold several lines.  Text is taken in character by character: a newline
//! ends the current line, a new line opens only when text for it arrives, and
//! a newline after an ended line is a blank line of its own.

use vstd::prelude::*;

verus! {

/// Control characters that are dropped from log lines.
pub open spec fn is_line_noise(c: char) -> bool {
    c == '\r' || c == '\t'
}

/// A message part with the noise characters removed.
pub open spec fn clean_line(s: Seq<char>) -> Seq<char> {
    s.filter(|c: char| !is_line_noise(c))
}

/// The lines of a log, and whether the last one is still open: text that
/// arrives is added to an open line, and opens a new line otherwise.
pub struct LinesView {
    pub lines: Seq<Seq<char>>,
    pub open: bool,
}

/// A log without lines.
pub open spec fn no_lines() -> LinesView {
    LinesView { lines: Seq::empty(), open: false }
}

/// Whether text that arrives continues the last line.
pub open spec fn continues(v: LinesView) -> bool {
    v.open && v.lines.len() > 0
}

/// The lines after the character `c` arrived: a newline ends an open line,
/// and after an ended line it is a blank line of its own; `'\r'` and `'\t'`
/// are dropped; any other character is added to an open line, or opens a
/// new one.
pub open spec fn take_char(v: LinesView, c: char) -> LinesView {
    if c == '\n' {
        if continues(v) {
            LinesView { open: false, ..v }
        } else {
            LinesView { lines: v.lines.push(Seq::empty()), open: false }
        }
    } else if is_line_noise(c) {
        v
    } else if continues(v) {
        LinesView { lines: v.lines.update(v.lines.len() - 1, v.lines.last().push(c)), open: true }
    } else {
        LinesView { lines: v.lines.push(seq![c]), open: true }
    }
}

/// The lines after `message` arrived, character by character.
pub open spec fn append_message_lines(v: LinesView, message: Seq<char>) -> LinesView
    decreases message.len(),
{
    if message.len() == 0 {
        v
    } else {
        take_char(append_message_lines(v, message.drop_last()), message.last())
    }
}

/// A line that holds none of the characters a log line must not hold.
pub open spec fn is_clean_line(s: Seq<char>) -> bool {
    forall|i: int| 0 <= i < s.len() ==> s[i] != '\n' && !is_line_noise(#[trigger] s[i])
}

/// Every line of `lines` is clean.
pub open spec fn all_clean(lines: Seq<Seq<char>>) -> bool {
    forall|i: int| 0 <= i < lines.len() ==> is_clean_line(#[trigger] lines[i])
}

/// A message sent in two parts gives the lines it gives when sent whole.
pub proof fn law_parts_join(v: LinesView, a: Seq<char>, b: Seq<char>)
    ensures
        append_message_lines(append_message_lines(v, a), b) == append_message_lines(v, a + b),
    decreases b.len(),
{
    if b.len() == 0 {
        assert(a + b =~= a);
    } else {
        law_parts_join(v, a, b.drop_last());
        assert((a + b).drop_last() =~= a + b.drop_last());
        assert((a + b).last() == b.last());
    }
}

/// Appending a message keeps every line of a log clean: no line ever holds a
/// newline, a carriage return or a tab.
pub proof fn law_lines_stay_clean(v: LinesView, message: Seq<char>)
    requires
        all_clean(v.lines),
    ensures
        all_clean(append_message_lines(v, message).lines),
    decreases message.len(),
{
    if message.len() > 0 {
        law_lines_stay_clean(v, message.drop_last());
        let w = append_message_lines(v, message.drop_last());
        let c = message.last();
        let n = take_char(w, c);
        assert forall|i: int| 0 <= i < n.lines.len() implies is_clean_line(#[trigger] n.lines[i]) by {
            if i < w.lines.len() {
                assert(is_clean_line(w.lines[i]));
            }
            if c != '\n' && !is_line_noise(c) && continues(w) && i == w.lines.len() - 1 {
                let l = w.lines.last();
                assert forall|k: int| 0 <= k < l.push(c).len() implies l.push(c)[k] != '\n' && !is_line_noise(
                    #[trigger] l.push(c)[k],
                ) by {
                    if k < l.len() {
                        assert(l.push(c)[k] == l[k]);
                    }
                }
            }
        }
    }
}

/// Appending a message leaves the earlier lines as they were and only
/// extends the last one: lines are never removed, each line before the last
/// stays unchanged, and the last line keeps what it held.
pub proof fn law_earlier_lines_kept(v: LinesView, message: Seq<char>)
    ensures
        append_message_lines(v, message).lines.len() >= v.lines.len(),
        forall|i: int| 0 <= i < v.lines.len() - 1 ==> #[trigger] append_message_lines(v, message).lines[i] == v.lines[i],
        v.lines.len() > 0 ==> v.lines.last().is_prefix_of(append_message_lines(v, message).lines[v.lines.len() - 1]),
    decreases message.len(),
{
    if message.len() > 0 {
        law_earlier_lines_kept(v, message.drop_last());
        let w = append_message_lines(v, message.drop_last());
        let n = take_char(w, message.last());
        let k = v.lines.len() - 1;
        if v.lines.len() > 0 {
            let l = w.lines[k];
            assert(v.lines.last().is_prefix_of(l));
            if k == w.lines.len() - 1 && message.last() != '\n' && !is_line_noise(message.last()) && continues(w) {
                assert(n.lines[k] == l.push(message.last()));
                assert forall|j: int| 0 <= j < v.lines.last().len() implies #[trigger] n.lines[k][j] == v.lines.last()[j] by {
                    assert(l.push(message.last())[j] == l[j]);
                }
            } else {
                assert(n.lines[k] == l);
            }
        }
        assert forall|i: int| 0 <= i < v.lines.len() - 1 implies #[trigger] n.lines[i] == v.lines[i] by {
            assert(w.lines[i] == v.lines[i]);
        }
    }
}

/// A message without a newline continues the open last line of a log: it
/// is added to that line, without its noise characters, and no line is
/// opened.
pub proof fn law_message_continues_last_line(v: LinesView, message: Seq<char>)
    requires
        continues(v),
        forall|i: int| 0 <= i < message.len() ==> message[i] != '\n',
    ensures
        append_message_lines(v, message) == (LinesView {
            lines: v.lines.update(v.lines.len() - 1, v.lines.last() + clean_line(message)),
            open: true,
        }),
    decreases message.len(),
{
    reveal(Seq::filter);
    if message.len() == 0 {
        assert(v.lines.last() + clean_line(message) =~= v.lines.last());
        assert(v.lines.update(v.lines.len() - 1, v.lines.last()) =~= v.lines);
    } else {
        law_message_continues_last_line(v, message.drop_last());
        let c = message.last();
        let w = append_message_lines(v, message.drop_last());
        if is_line_noise(c) {
            assert(clean_line(message) == clean_line(message.drop_last()));
        } else {
            assert(clean_line(message) == clean_line(message.drop_last()).push(c));
            assert(w.lines.update(w.lines.len() - 1, w.lines.last().push(c)) =~= v.lines.update(
                v.lines.len() - 1,
                v.lines.last() + clean_line(message),
            ));
        }
    }
}

/// A message that is some text and one final newline completes the open
/// last line with that text and ends it, without opening another.
pub proof fn law_newline_ends_line(v: LinesView, text: Seq<char>)
    requires
        continues(v),
        forall|i: int| 0 <= i < text.len() ==> text[i] != '\n',
    ensures
        append_message_lines(v, text.push('\n')) == (LinesView {
            lines: v.lines.update(v.lines.len() - 1, v.lines.last() + clean_line(text)),
            open: false,
        }),
{
    law_message_continues_last_line(v, text);
    assert(text.push('\n').drop_last() =~= text);
}

/// The text a message added to the lines of `v`, giving `w`, is clean: what
/// follows the old text of the last line, and every new line.
pub open spec fn added_text_clean(v: LinesView, w: LinesView) -> bool {
    &&& v.lines.len() > 0 ==> is_clean_line(w.lines[v.lines.len() - 1].skip(v.lines.last().len() as int))
    &&& forall|i: int| v.lines.len() <= i < w.lines.len() ==> is_clean_line(#[trigger] w.lines[i])
}

/// What appending a message changes in a log, whatever the log held
/// before: no line is removed, every line before the last stays as it
/// was, the last line keeps its text at its start, and the text added, to
/// the last line and as new lines, holds no newline, carriage return or
/// tab.
pub proof fn law_append_message_only_adds(v: LinesView, message: Seq<char>)
    ensures
        append_message_lines(v, message).lines.len() >= v.lines.len(),
        forall|i: int| 0 <= i < v.lines.len() - 1 ==> #[trigger] append_message_lines(v, message).lines[i] == v.lines[i],
        v.lines.len() > 0 ==> v.lines.last().is_prefix_of(append_message_lines(v, message).lines[v.lines.len() - 1]),
        added_text_clean(v, append_message_lines(v, message)),
    decreases message.len(),
{
    law_earlier_lines_kept(v, message);
    if message.len() == 0 {
        if v.lines.len() > 0 {
            assert(v.lines.last().skip(v.lines.last().len() as int).len() == 0);
        }
    } else {
        law_append_message_only_adds(v, message.drop_last());
        law_earlier_lines_kept(v, message.drop_last());
        let w = append_message_lines(v, message.drop_last());
        let c = message.last();
        let n = take_char(w, c);
        assert(n == append_message_lines(v, message));
        let grows = c != '\n' && !is_line_noise(c) && continues(w);
        if v.lines.len() > 0 {
            let k = v.lines.len() - 1;
            let old_len = v.lines.last().len() as int;
            assert(v.lines.last().is_prefix_of(w.lines[k]));
            if grows && k == w.lines.len() - 1 {
                let l = w.lines[k];
                assert(n.lines[k] == l.push(c));
                assert(l.push(c).skip(old_len) =~= l.skip(old_len).push(c));
                let t = l.skip(old_len);
                assert(is_clean_line(t));
                assert forall|j: int| 0 <= j < t.push(c).len() implies t.push(c)[j] != '\n' && !is_line_noise(
                    #[trigger] t.push(c)[j],
                ) by {
                    if j < t.len() {
                        assert(t.push(c)[j] == t[j]);
                    }
                }
            } else {
                assert(n.lines[k] == w.lines[k]);
            }
        }
        assert forall|i: int| v.lines.len() <= i < n.lines.len() implies is_clean_line(#[trigger] n.lines[i]) by {
            if i < w.lines.len() {
                assert(is_clean_line(w.lines[i]));
                if grows && i == w.lines.len() - 1 {
                    let l = w.lines[i];
                    assert(n.lines[i] == l.push(c));
                    assert forall|j: int| 0 <= j < l.push(c).len() implies l.push(c)[j] != '\n' && !is_line_noise(
                        #[trigger] l.push(c)[j],
                    ) by {
                        if j < l.len() {
                            assert(l.push(c)[j] == l[j]);
                        }
                    }
                } else {
                    assert(n.lines[i] == w.lines[i]);
                }
            } else {
                if c == '\n' {
                    assert(n.lines[i] == Seq::<char>::empty());
                } else {
                    assert(n.lines[i] == seq![c]);
                }
            }
        }
    }
}

} // verus!
