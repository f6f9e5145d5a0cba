//! A log of text lines, fed with messages that may split or join lines.

use vstd::prelude::*;

use super::lines::append_message_lines;
use super::lines::LinesView;
use super::log::Log;
use super::log::LogEntry;
use crate::text::chars_of;

verus! {

impl Log<String> {
    /// The text of each entry, oldest first.
    pub open spec fn lines(&self) -> Seq<Seq<char>> {
        self.spec_entries().map_values(|e: LogEntry<String>| e.data@)
    }

    /// The lines, and whether the last one is still open.
    pub open spec fn lines_view(&self) -> LinesView {
        LinesView { lines: self.lines(), open: self.is_open() }
    }

    fn add_new_empty(&mut self)
        ensures
            final(self).lines() == old(self).lines().push(Seq::<char>::empty()),
            final(self).spec_entries().len() == old(self).spec_entries().len() + 1,
            final(self).spec_entries().take(old(self).spec_entries().len() as int) == old(self).spec_entries(),
            final(self).is_open() == old(self).is_open(),
    {
        self.add_new(String::new());
        assert(self.lines() =~= old(self).lines().push(Seq::<char>::empty())) by {
            assert(self.spec_entries().take(old(self).spec_entries().len() as int)
                == old(self).spec_entries());
            assert forall|i: int| 0 <= i < old(self).spec_entries().len() implies #[trigger] self.spec_entries()[i]
                == old(self).spec_entries()[i] by {
                assert(self.spec_entries().take(old(self).spec_entries().len() as int)[i]
                    == self.spec_entries()[i]);
            }
        }
    }

    fn last_or_new(&mut self) -> (r: &mut LogEntry<String>)
        ensures
            old(self).lines().len() > 0 ==> r.data@ == old(self).lines().last() && final(self).lines() == old(self).lines().update(
                old(self).lines().len() - 1,
                final(r).data@,
            ),
            old(self).lines().len() == 0 ==> r.data@ == Seq::<char>::empty() && final(self).lines() == seq![final(r).data@],
            old(self).spec_entries().len() > 0 ==> r.time == old(self).spec_entries().last().time
                && final(self).spec_entries() == old(self).spec_entries().update(
                old(self).spec_entries().len() - 1,
                *final(r),
            ),
            old(self).spec_entries().len() == 0 ==> final(self).spec_entries().len() == 1,
            final(self).is_open() == old(self).is_open(),
    {
        if self.is_empty() {
            self.add_new_empty();
        }
        let ghost mid = self.spec_entries();
        proof {
            assert forall|v: LogEntry<String>| (#[trigger] mid.update(mid.len() - 1, v)).map_values(
                |e: LogEntry<String>| e.data@,
            ) == mid.map_values(|e: LogEntry<String>| e.data@).update(mid.len() - 1, v.data@) by {
                assert(mid.update(mid.len() - 1, v).map_values(|e: LogEntry<String>| e.data@)
                    =~= mid.map_values(|e: LogEntry<String>| e.data@).update(
                    mid.len() - 1,
                    v.data@,
                ));
            }
            assert(self.lines()[mid.len() - 1] == mid[mid.len() - 1].data@);
            if old(self).lines().len() == 0 {
                assert(self.lines() =~= seq![Seq::<char>::empty()]);
            }
            assert forall|x: Seq<char>| #[trigger] seq![Seq::<char>::empty()].update(0, x) == seq![x] by {
                assert(seq![Seq::<char>::empty()].update(0, x) =~= seq![x]);
            }
        }
        self.last_mut().unwrap()
    }

    /// Appends a message to the log.
    ///
    /// A device may send one output line in several messages, and one message
    /// may hold several lines (see `append_message_lines`): each `'\n'` ends
    /// a line, parts of a line are added to the line they continue, a blank
    /// line is a line of its own, and `'\r'` and `'\t'` are dropped.  For
    /// example the messages `"foo"`, `"bar"`, `"baz\n"`, `"hello wo"`,
    /// `"rld!\n"` give exactly the lines `"foobarbaz"` and `"hello world!"`.
    ///
    /// The entries before the last stay as they were, timestamps included,
    /// and the last one keeps its time: text is only added to it, or new
    /// entries come after it.
    pub fn append_message(&mut self, message: &str)
        ensures
            final(self).lines_view() == append_message_lines(old(self).lines_view(), message@),
            final(self).spec_entries().len() >= old(self).spec_entries().len(),
            forall|k: int|
                0 <= k < old(self).spec_entries().len() - 1 ==> #[trigger] final(self).spec_entries()[k]
                    == old(self).spec_entries()[k],
            old(self).spec_entries().len() > 0 ==> final(self).spec_entries()[old(self).spec_entries().len() - 1].time
                == old(self).spec_entries().last().time,
    {
        let ghost n = old(self).spec_entries().len();
        let ghost first = old(self).spec_entries();
        let m = chars_of(message);
        let mut i: usize = 0;
        assert(m@.take(0) =~= Seq::<char>::empty());
        while i < m.len()
            invariant
                i <= m.len(),
                m@ == message@,
                self.lines_view() == append_message_lines(old(self).lines_view(), m@.take(i as int)),
                n == first.len(),
                self.spec_entries().len() >= n,
                forall|k: int| 0 <= k < n - 1 ==> #[trigger] self.spec_entries()[k] == first[k],
                n > 0 ==> self.spec_entries()[n - 1].time == first.last().time,
            decreases m.len() - i,
        {
            let ghost entries_before = self.spec_entries();
            let c = m[i];
            let ghost before = self.lines_view();
            proof {
                assert(m@.take(i + 1).drop_last() =~= m@.take(i as int));
                assert(m@.take(i + 1).last() == c);
            }
            let continues = self.line_open() && !self.is_empty();
            if c == '\n' {
                if continues {
                    self.set_open(false);
                } else {
                    self.add_new_empty();
                    self.set_open(false);
                }
            } else if c == '\r' || c == '\t' {
            } else if continues {
                let last = self.last_or_new();
                crate::text::string_push(&mut last.data, c);
            } else {
                self.add_new_empty();
                let last = self.last_or_new();
                crate::text::string_push(&mut last.data, c);
                self.set_open(true);
                assert(before.lines.push(Seq::<char>::empty()).update(before.lines.len() as int, Seq::<char>::empty().push(c))
                    =~= before.lines.push(seq![c]));
            }
            assert(self.lines_view() == super::lines::take_char(before, c));
            proof {
                assert forall|k: int| 0 <= k < n - 1 implies #[trigger] self.spec_entries()[k] == first[k] by {
                    if self.spec_entries().len() > entries_before.len() {
                        assert(self.spec_entries().take(entries_before.len() as int)[k] == self.spec_entries()[k]);
                    }
                    assert(entries_before[k] == first[k]);
                }
            }
            i = i + 1;
        }
        assert(m@.take(m.len() as int) =~= m@);
    }
}

} // verus!
