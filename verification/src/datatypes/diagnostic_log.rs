//! The log of diagnostic (text) messages received from the device.


use vstd::prelude::*;

use super::lines::append_message_lines;
use super::lines::LinesView;
use super::log::now;
use super::log::timestamp_text;
use super::log::Timestamp;
use crate::text::chars_of;

verus! {

/// One line of diagnostic output and the time it was started.
pub struct Diagnostic {
    pub time: Timestamp,
    pub message: String,
}

/// Diagnostic output of the device, one entry per line.
pub struct DiagnosticLog {
    diagnostics: Vec<Diagnostic>,
    /// Whether the last line is still open for more text.
    open: bool,
}

impl DiagnosticLog {
    /// The lines, oldest first.
    pub closed spec fn spec_diagnostics(&self) -> Seq<Diagnostic> {
        self.diagnostics@
    }

    /// The text of each line, oldest first.
    pub open spec fn messages(&self) -> Seq<Seq<char>> {
        self.spec_diagnostics().map_values(|d: Diagnostic| d.message@)
    }

    /// Whether the last line is still open for more text.
    pub closed spec fn is_open(&self) -> bool {
        self.open
    }

    /// The lines, and whether the last one is still open.
    pub open spec fn lines_view(&self) -> LinesView {
        LinesView { lines: self.messages(), open: self.is_open() }
    }

    /// An empty log.
    pub fn new() -> (r: Self)
        ensures
            r.lines_view() == super::lines::no_lines(),
    {
        let r = Self { diagnostics: Vec::new(), open: false };
        assert(r.messages() =~= Seq::<Seq<char>>::empty());
        r
    }

    fn add_new_empty(&mut self, time: Timestamp)
        ensures
            final(self).messages() == old(self).messages().push(Seq::<char>::empty()),
            final(self).spec_diagnostics().len() == old(self).spec_diagnostics().len() + 1,
            final(self).spec_diagnostics().take(old(self).spec_diagnostics().len() as int)
                == old(self).spec_diagnostics(),
            final(self).open == old(self).open,
    {
        let new = Diagnostic { time, message: String::new() };
        self.diagnostics.push(new);
        assert(self.spec_diagnostics().take(old(self).spec_diagnostics().len() as int) =~= old(self).spec_diagnostics());
        assert(self.messages() =~= old(self).messages().push(Seq::<char>::empty()));
    }

    fn last_or_new(&mut self, time: Timestamp) -> (r: &mut Diagnostic)
        ensures
            old(self).messages().len() > 0 ==> r.message@ == old(self).messages().last() && final(self).messages() == old(self).messages().update(old(self).messages().len() - 1, final(r).message@),
            old(self).messages().len() == 0 ==> r.message@ == Seq::<char>::empty() && final(self).messages() == seq![final(r).message@],
            old(self).spec_diagnostics().len() > 0 ==> r.time == old(self).spec_diagnostics().last().time
                && final(self).spec_diagnostics() == old(self).spec_diagnostics().update(
                old(self).spec_diagnostics().len() - 1,
                *final(r),
            ),
            old(self).spec_diagnostics().len() == 0 ==> final(self).spec_diagnostics().len() == 1,
            final(self).open == old(self).open,
    {
        if self.diagnostics.len() == 0 {
            self.add_new_empty(time);
        }
        let ghost mid = self.spec_diagnostics();
        proof {
            assert forall|v: Diagnostic| (#[trigger] mid.update(mid.len() - 1, v)).map_values(
                |d: Diagnostic| d.message@,
            ) == mid.map_values(|d: Diagnostic| d.message@).update(mid.len() - 1, v.message@) by {
                assert(mid.update(mid.len() - 1, v).map_values(|d: Diagnostic| d.message@)
                    =~= mid.map_values(|d: Diagnostic| d.message@).update(
                    mid.len() - 1,
                    v.message@,
                ));
            }
            assert(self.messages()[mid.len() - 1] == mid[mid.len() - 1].message@);
            if old(self).messages().len() == 0 {
                assert(self.messages() =~= seq![Seq::<char>::empty()]);
            }
            assert forall|x: Seq<char>| #[trigger] seq![Seq::<char>::empty()].update(0, x) == seq![x] by {
                assert(seq![Seq::<char>::empty()].update(0, x) =~= seq![x]);
            }
        }
        let n = self.diagnostics.len();
        &mut self.diagnostics[n - 1]
    }

    /// Appends a message received from the device; a line opened by it is
    /// stamped with the current time.
    ///
    /// A device may send one output line in several messages, and one message
    /// may hold several lines (see `append_message_lines`): each `'\n'` ends
    /// a line, parts of a line are added to the line they continue, a blank
    /// line is a line of its own, and `'\r'` and `'\t'` are dropped.  For
    /// example the messages `"foo"`, `"bar"`, `"baz\n"`, `"hello wo"`,
    /// `"rld!\n"` give exactly the lines `"foobarbaz"` and `"hello world!"`.
    ///
    /// The lines before the last stay as they were, timestamps included,
    /// and the last one keeps its time.
    pub fn add(&mut self, message: &str)
        ensures
            final(self).lines_view() == append_message_lines(old(self).lines_view(), message@),
            final(self).spec_diagnostics().len() >= old(self).spec_diagnostics().len(),
            forall|k: int|
                0 <= k < old(self).spec_diagnostics().len() - 1 ==> #[trigger] final(self).spec_diagnostics()[k]
                    == old(self).spec_diagnostics()[k],
            old(self).spec_diagnostics().len() > 0 ==> final(self).spec_diagnostics()[old(self).spec_diagnostics().len()
                - 1].time == old(self).spec_diagnostics().last().time,
    {
        let ghost n = old(self).spec_diagnostics().len();
        let ghost first = old(self).spec_diagnostics();
        let time = now();
        let m = chars_of(message);
        let mut i: usize = 0;
        assert(m@.take(0) =~= Seq::<char>::empty());
        while i < m.len()
            invariant
                i <= m.len(),
                m@ == message@,
                self.lines_view() == append_message_lines(old(self).lines_view(), m@.take(i as int)),
                n == first.len(),
                self.spec_diagnostics().len() >= n,
                forall|k: int| 0 <= k < n - 1 ==> #[trigger] self.spec_diagnostics()[k] == first[k],
                n > 0 ==> self.spec_diagnostics()[n - 1].time == first.last().time,
            decreases m.len() - i,
        {
            let ghost entries_before = self.spec_diagnostics();
            let c = m[i];
            let ghost before = self.lines_view();
            proof {
                assert(m@.take(i + 1).drop_last() =~= m@.take(i as int));
                assert(m@.take(i + 1).last() == c);
            }
            let continues = self.open && self.diagnostics.len() > 0;
            if c == '\n' {
                if continues {
                    self.open = false;
                } else {
                    self.add_new_empty(time);
                    self.open = false;
                }
            } else if c == '\r' || c == '\t' {
            } else if continues {
                let last = self.last_or_new(time);
                crate::text::string_push(&mut last.message, c);
            } else {
                self.add_new_empty(time);
                let last = self.last_or_new(time);
                crate::text::string_push(&mut last.message, c);
                self.open = true;
                assert(seq![Seq::<char>::empty()].update(0, seq![c]) =~= seq![seq![c]]);
                assert(before.lines.push(Seq::<char>::empty()).update(before.lines.len() as int, Seq::<char>::empty().push(c))
                    =~= before.lines.push(seq![c]));
            }
            assert(self.messages() =~= super::lines::take_char(before, c).lines);
            assert(self.lines_view() == super::lines::take_char(before, c));
            proof {
                assert forall|k: int| 0 <= k < n - 1 implies #[trigger] self.spec_diagnostics()[k] == first[k] by {
                    if self.spec_diagnostics().len() > entries_before.len() {
                        assert(self.spec_diagnostics().take(entries_before.len() as int)[k]
                            == self.spec_diagnostics()[k]);
                    }
                    assert(entries_before[k] == first[k]);
                }
            }
            i = i + 1;
        }
        assert(m@.take(m.len() as int) =~= m@);
    }

    /// The lines, oldest first.
    pub fn diagnostics(&self) -> (r: &[Diagnostic])
        ensures
            r@ == self.spec_diagnostics(),
    {
        self.diagnostics.as_slice()
    }

    /// Each line as `[HH:MM:SS.mmm] text`, oldest first.
    pub fn timestamped_lines(&self) -> (r: Vec<String>)
        ensures
            r.len() == self.messages().len(),
    {
        let mut r: Vec<String> = Vec::new();
        for i in 0..self.diagnostics.len()
            invariant
                r.len() == i,
                i <= self.diagnostics@.len(),
        {
            let mut line = timestamp_text(&self.diagnostics[i].time);
            crate::text::string_push(&mut line, ' ');
            line.append(self.diagnostics[i].message.as_str());
            r.push(line);
        }
        r
    }
}

} // verus!
