//! A time-stamped log of entries.

use vstd::prelude::*;

use crate::numfmt::digits;
use crate::numfmt::pad_left;
use crate::text::string_push_str;

verus! {

/// An instant, as std's `SystemTime` places it against 1970-01-01 00:00
/// UTC: whether it lies before, and the distance in whole seconds and the
/// nanoseconds beyond them.
#[derive(Clone, Copy)]
pub struct Timestamp {
    before_epoch: bool,
    secs: u64,
    nanos: u32,
}

/// An instant as values.
pub struct TimestampView {
    pub before_epoch: bool,
    pub secs: nat,
    pub nanos: nat,
}

impl View for Timestamp {
    type V = TimestampView;

    closed spec fn view(&self) -> TimestampView {
        TimestampView { before_epoch: self.before_epoch, secs: self.secs as nat, nanos: self.nanos as nat }
    }
}

impl Timestamp {
    /// The nanoseconds are a fraction of a second.
    #[verifier::type_invariant]
    spec fn nanos_below_a_second(self) -> bool {
        self.nanos < 1_000_000_000
    }
}

/// Reads the clock (std's `SystemTime::now`, then `duration_since` the
/// epoch): whether the time lies before the epoch, and the distance as
/// `Duration::as_secs` and `Duration::subsec_nanos` give it, the latter
/// below a billion as documented.  Nothing more is stated: the value
/// depends on the clock.
#[verifier::external_body]
fn read_clock() -> (r: (bool, u64, u32))
    ensures
        r.2 < 1_000_000_000,
{
    match std::time::SystemTime::now().duration_since(std::time::UNIX_EPOCH) {
        Ok(d) => (false, d.as_secs(), d.subsec_nanos()),
        Err(e) => (true, e.duration().as_secs(), e.duration().subsec_nanos()),
    }
}

/// The current wall-clock time.
pub(crate) fn now() -> Timestamp {
    let (before_epoch, secs, nanos) = read_clock();
    Timestamp { before_epoch, secs, nanos }
}

/// The seconds since the epoch, rounded down, and the nanoseconds beyond
/// them, of an instant: how chrono's `DateTime<Utc>` counts a `SystemTime`.
pub open spec fn epoch_seconds(t: TimestampView) -> (int, int) {
    if !t.before_epoch {
        (t.secs as int, t.nanos as int)
    } else if t.nanos == 0 {
        (-(t.secs as int), 0)
    } else {
        (-(t.secs as int) - 1, 1_000_000_000 - t.nanos)
    }
}

/// `n` in decimal with leading zeros to `width` digits.
pub open spec fn zero_padded(n: int, width: nat) -> Seq<char> {
    pad_left(digits(n as nat, 10), width, '0')
}

/// The instant's UTC time of day as chrono's format `%H:%M:%S%.3f` writes
/// it (hours, minutes and seconds in two digits, milliseconds in three), in
/// square brackets, such as `[09:05:03.042]`.
pub open spec fn clock_text(t: TimestampView) -> Seq<char> {
    let (sec, nsec) = epoch_seconds(t);
    let day = sec % 86400;
    "["@ + zero_padded(day / 3600, 2) + ":"@ + zero_padded(day / 60 % 60, 2) + ":"@ + zero_padded(day % 60, 2)
        + "."@ + zero_padded(nsec / 1_000_000, 3) + "]"@
}

/// Seconds before the epoch fall on the time of day counted back from
/// midnight.
proof fn lemma_day_before_epoch(n: int)
    requires
        n >= 0,
    ensures
        (-n) % 86400 == (86400 - n % 86400) % 86400,
{
    let q = n / 86400;
    let r = n % 86400;
    vstd::arithmetic::div_mod::lemma_fundamental_div_mod(n, 86400);
    vstd::arithmetic::div_mod::lemma_mod_pos_bound(n, 86400);
    if r == 0 {
        vstd::arithmetic::div_mod::lemma_fundamental_div_mod_converse(-n, 86400, -q, 0);
        vstd::arithmetic::div_mod::lemma_fundamental_div_mod_converse(86400, 86400, 1, 0);
    } else {
        vstd::arithmetic::div_mod::lemma_fundamental_div_mod_converse(-n, 86400, -q - 1, 86400 - r);
        vstd::arithmetic::div_mod::lemma_fundamental_div_mod_converse(86400 - r, 86400, 0, 86400 - r);
    }
}

/// `n` in decimal with leading zeros to `width` digits.
fn zero_padded_string(n: u64, width: usize) -> (r: String)
    ensures
        r@ == zero_padded(n as int, width as nat),
{
    let v = crate::numfmt::pad_left_exec(crate::numfmt::digits_exec(n, 10), width, '0');
    crate::text::string_from_chars(v.as_slice())
}

/// `time` as its UTC time of day in the form `[HH:MM:SS.mmm]` (see
/// `clock_text`).
pub(crate) fn timestamp_text(time: &Timestamp) -> (r: String)
    ensures
        r@ == clock_text(time@),
{
    proof {
        use_type_invariant(time);
    }
    let day: u64 = if !time.before_epoch {
        time.secs % 86400
    } else if time.nanos == 0 {
        proof {
            lemma_day_before_epoch(time.secs as int);
        }
        (86400 - time.secs % 86400) % 86400
    } else {
        proof {
            lemma_day_before_epoch(time.secs + 1);
            vstd::arithmetic::div_mod::lemma_add_mod_noop(time.secs as int, 1, 86400);
        }
        (86400 - (time.secs % 86400 + 1) % 86400) % 86400
    };
    let nsec: u32 = if !time.before_epoch || time.nanos == 0 {
        time.nanos
    } else {
        1_000_000_000 - time.nanos
    };
    assert(day as int == epoch_seconds(time@).0 % 86400);
    assert(nsec as int == epoch_seconds(time@).1);
    let mut out = "[".to_owned();
    string_push_str(&mut out, zero_padded_string(day / 3600, 2).as_str());
    string_push_str(&mut out, ":");
    string_push_str(&mut out, zero_padded_string(day / 60 % 60, 2).as_str());
    string_push_str(&mut out, ":");
    string_push_str(&mut out, zero_padded_string(day % 60, 2).as_str());
    string_push_str(&mut out, ".");
    string_push_str(&mut out, zero_padded_string((nsec / 1_000_000) as u64, 3).as_str());
    string_push_str(&mut out, "]");
    out
}

/// One entry of a log: what was logged and when.
pub struct LogEntry<T> {
    pub time: Timestamp,
    pub data: T,
}

impl<T> LogEntry<T> {
    /// An entry holding `data`, stamped with `time`.
    pub fn stamped(data: T, time: Timestamp) -> (r: Self)
        ensures
            r.data == data,
            r.time == time,
    {
        Self { time, data }
    }

    /// An entry holding `data`, stamped with the current time (the clock
    /// reading `now` takes; see `stamped`).
    pub fn new(data: T) -> (r: Self)
        ensures
            r.data == data,
    {
        Self::stamped(data, now())
    }

    /// The entry's time as `[HH:MM:SS.mmm]` (UTC).
    pub fn get_timestamp(&self) -> (r: String)
        ensures
            r@ == clock_text(self.time@),
    {
        timestamp_text(&self.time)
    }
}

/// A log: entries in the order in which they were added.
pub struct Log<T> {
    entries: Vec<LogEntry<T>>,
    /// For a log of text lines: whether the last line is still open.
    open: bool,
}

impl<T> Log<T> {
    /// The entries, oldest first.
    pub closed spec fn spec_entries(&self) -> Seq<LogEntry<T>> {
        self.entries@
    }

    /// What the entries hold, oldest first.
    pub open spec fn data(&self) -> Seq<T> {
        self.spec_entries().map_values(|e: LogEntry<T>| e.data)
    }

    /// For a log of text lines: whether the last line is still open for
    /// more text.
    pub closed spec fn is_open(&self) -> bool {
        self.open
    }

    /// An empty log.
    pub fn new() -> (r: Self)
        ensures
            r.spec_entries().len() == 0,
            !r.is_open(),
    {
        Self { entries: Vec::new(), open: false }
    }

    /// Whether the last line is still open.
    pub fn line_open(&self) -> (r: bool)
        ensures
            r == self.is_open(),
    {
        self.open
    }

    /// Notes whether the last line is still open.
    pub fn set_open(&mut self, open: bool)
        ensures
            final(self).spec_entries() == old(self).spec_entries(),
            final(self).is_open() == open,
    {
        self.open = open;
    }

    /// Adds an entry holding `data`, stamped with the current time.
    pub fn add_new(&mut self, data: T)
        ensures
            final(self).spec_entries().len() == old(self).spec_entries().len() + 1,
            final(self).spec_entries().take(old(self).spec_entries().len() as int) == old(self).spec_entries(),
            final(self).spec_entries().last().data == data,
            final(self).is_open() == old(self).is_open(),
    {
        self.entries.push(LogEntry::new(data));
        assert(self.entries@.take(old(self).entries@.len() as int) == old(self).entries@);
    }

    /// Whether the log has no entry.
    pub fn is_empty(&self) -> (r: bool)
        ensures
            r == (self.spec_entries().len() == 0),
    {
        self.entries.len() == 0
    }

    /// The newest entry, to change in place; `None` when the log is empty.
    pub fn last_mut(&mut self) -> (r: Option<&mut LogEntry<T>>)
        ensures
            old(self).spec_entries().len() == 0 ==> r is None && final(self).spec_entries()
                == old(self).spec_entries(),
            old(self).spec_entries().len() > 0 ==> r is Some && *r->0 == old(self).spec_entries().last() && final(self).spec_entries() == old(self).spec_entries().update(
                old(self).spec_entries().len() - 1,
                *final(r->0),
            ),
            final(self).is_open() == old(self).is_open(),
    {
        let n = self.entries.len();
        if n == 0 {
            None
        } else {
            Some(&mut self.entries[n - 1])
        }
    }

    /// The entries, oldest first.
    pub fn entries(&self) -> (r: &[LogEntry<T>])
        ensures
            r@ == self.spec_entries(),
    {
        self.entries.as_slice()
    }
}

} // verus!
