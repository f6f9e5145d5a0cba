//! Listing the device's threads.

use vstd::prelude::*;

use super::super::request::RequestPlan;
use super::super::request::RequestView;
use super::super::Command;
use super::super::CommandKind;
use crate::cbor::cbor_array;
use crate::cbor::cbor_bool;
use crate::cbor::cbor_str;
use crate::cbor::cbor_u32;
use crate::cbor::cbor_u8;
use crate::cbor::read_array;
use crate::cbor::read_bool;
use crate::cbor::read_str;
use crate::cbor::read_u32;
use crate::cbor::read_u8;
use crate::columns::align_center;
use crate::columns::align_left;
use crate::columns::align_right;
use crate::columns::hex_word;
use crate::columns::center;
use crate::columns::hex_word_string;
use crate::columns::left;
use crate::columns::right;
use crate::numfmt::decimal;
use crate::numfmt::digits;
use crate::text::string_push_str;

verus! {

/// The state of a RIOT thread.
#[derive(Clone, Copy, PartialEq, Eq, Structural, Debug)]
pub enum ThreadStatus {
    /// has terminated
    Stopped,
    /// has terminated and keeps its thread structure
    Zombie,
    /// sleeping
    Sleeping,
    /// waiting for a locked mutex
    MutexBlocked,
    /// waiting for a message
    ReceiveBlocked,
    /// waiting for a message to be delivered
    SendBlocked,
    /// waiting for a message response
    ReplyBlocked,
    /// waiting for any flag from a flag mask
    FlagBlockedAny,
    /// waiting for all flags in a flag mask
    FlagBlockedAll,
    /// waiting for get or put on a mailbox
    MboxBlocked,
    /// waiting for a condition variable
    CondBlocked,
    /// currently running
    Running,
    /// waiting to be scheduled
    Pending,
    /// the number of thread states; any unknown code
    Numof,
}

/// The state a thread status code stands for: codes 0 to 12 in the order of
/// the variants, any other code `Numof`.
pub open spec fn status_of_code(data: u32) -> ThreadStatus {
    if data == 0 {
        ThreadStatus::Stopped
    } else if data == 1 {
        ThreadStatus::Zombie
    } else if data == 2 {
        ThreadStatus::Sleeping
    } else if data == 3 {
        ThreadStatus::MutexBlocked
    } else if data == 4 {
        ThreadStatus::ReceiveBlocked
    } else if data == 5 {
        ThreadStatus::SendBlocked
    } else if data == 6 {
        ThreadStatus::ReplyBlocked
    } else if data == 7 {
        ThreadStatus::FlagBlockedAny
    } else if data == 8 {
        ThreadStatus::FlagBlockedAll
    } else if data == 9 {
        ThreadStatus::MboxBlocked
    } else if data == 10 {
        ThreadStatus::CondBlocked
    } else if data == 11 {
        ThreadStatus::Running
    } else if data == 12 {
        ThreadStatus::Pending
    } else {
        ThreadStatus::Numof
    }
}

/// How a thread state is shown in the thread list.
pub open spec fn status_text(s: ThreadStatus) -> Seq<char> {
    match s {
        ThreadStatus::Stopped => "stopped"@,
        ThreadStatus::Zombie => "zombie"@,
        ThreadStatus::Sleeping => "sleeping"@,
        ThreadStatus::MutexBlocked => "bl mutex"@,
        ThreadStatus::ReceiveBlocked => "bl rx"@,
        ThreadStatus::SendBlocked => "bl send"@,
        ThreadStatus::ReplyBlocked => "bl reply"@,
        ThreadStatus::FlagBlockedAny => "bl anyfl"@,
        ThreadStatus::FlagBlockedAll => "bl allfl"@,
        ThreadStatus::MboxBlocked => "bl mbox"@,
        ThreadStatus::CondBlocked => "bl cond"@,
        ThreadStatus::Running => "running"@,
        ThreadStatus::Pending => "pending"@,
        ThreadStatus::Numof => "numof"@,
    }
}

/// The names RIOT gives its thread states in the `ps` table, in the order
/// of their status codes 0 to 12.
pub open spec fn riot_state_names() -> Seq<Seq<char>> {
    seq![
        "stopped"@,
        "zombie"@,
        "sleeping"@,
        "bl mutex"@,
        "bl rx"@,
        "bl send"@,
        "bl reply"@,
        "bl anyfl"@,
        "bl allfl"@,
        "bl mbox"@,
        "bl cond"@,
        "running"@,
        "pending"@,
    ]
}

/// The position of a state among RIOT's thread states, in the order in
/// which they are declared.
pub open spec fn state_position(s: ThreadStatus) -> nat {
    match s {
        ThreadStatus::Stopped => 0,
        ThreadStatus::Zombie => 1,
        ThreadStatus::Sleeping => 2,
        ThreadStatus::MutexBlocked => 3,
        ThreadStatus::ReceiveBlocked => 4,
        ThreadStatus::SendBlocked => 5,
        ThreadStatus::ReplyBlocked => 6,
        ThreadStatus::FlagBlockedAny => 7,
        ThreadStatus::FlagBlockedAll => 8,
        ThreadStatus::MboxBlocked => 9,
        ThreadStatus::CondBlocked => 10,
        ThreadStatus::Running => 11,
        ThreadStatus::Pending => 12,
        ThreadStatus::Numof => 13,
    }
}

/// A status code names the state at its position: codes 0 to 12 stand for
/// RIOT's thread states in their order (2 is a sleeping thread), each for
/// another state, and a thread's row shows that state by RIOT's name for
/// it; every other code is unknown (`Numof`).
pub proof fn law_status_codes(c: u32, d: u32)
    ensures
        c <= 12 ==> state_position(status_of_code(c)) == c,
        c <= 12 ==> status_text(status_of_code(c)) == riot_state_names()[c as int],
        c > 12 ==> status_of_code(c) == ThreadStatus::Numof,
        c <= 12 && d <= 12 && c != d ==> status_of_code(c) != status_of_code(d),
{
}

impl ThreadStatus {
    /// The state for a status code sent by the device.
    pub fn from_u32(data: u32) -> (r: Self)
        ensures
            r == status_of_code(data),
    {
        match data {
            0 => Self::Stopped,
            1 => Self::Zombie,
            2 => Self::Sleeping,
            3 => Self::MutexBlocked,
            4 => Self::ReceiveBlocked,
            5 => Self::SendBlocked,
            6 => Self::ReplyBlocked,
            7 => Self::FlagBlockedAny,
            8 => Self::FlagBlockedAll,
            9 => Self::MboxBlocked,
            10 => Self::CondBlocked,
            11 => Self::Running,
            12 => Self::Pending,
            _ => Self::Numof,
        }
    }

    /// How the state is shown in the thread list.
    pub fn to_text(&self) -> (r: String)
        ensures
            r@ == status_text(*self),
    {
        match self {
            Self::Stopped => "stopped".to_owned(),
            Self::Zombie => "zombie".to_owned(),
            Self::Sleeping => "sleeping".to_owned(),
            Self::MutexBlocked => "bl mutex".to_owned(),
            Self::ReceiveBlocked => "bl rx".to_owned(),
            Self::SendBlocked => "bl send".to_owned(),
            Self::ReplyBlocked => "bl reply".to_owned(),
            Self::FlagBlockedAny => "bl anyfl".to_owned(),
            Self::FlagBlockedAll => "bl allfl".to_owned(),
            Self::MboxBlocked => "bl mbox".to_owned(),
            Self::CondBlocked => "bl cond".to_owned(),
            Self::Running => "running".to_owned(),
            Self::Pending => "pending".to_owned(),
            Self::Numof => "numof".to_owned(),
        }
    }
}

/// The command: `Ps`, needing `/jelly/Ps`.
pub fn cmd() -> (r: Command)
    ensures
        r@.cmd == "Ps"@,
        r@.required_endpoints == seq!["/jelly/Ps"@],
        r@.kind == CommandKind::Ps,
{
    let mut eps: Vec<String> = Vec::new();
    eps.push("/jelly/Ps".to_owned());
    let r = Command {
        cmd: "Ps".to_owned(),
        description: "Ps over coap, print thread info".to_owned(),
        required_endpoints: eps,
        kind: CommandKind::Ps,
    };
    assert(r@.required_endpoints =~= seq!["/jelly/Ps"@]);
    r
}

/// How much stack a thread (or the interrupt stack) has, uses and has
/// free, where it starts and where its stack pointer is.
#[derive(Clone, Copy, PartialEq, Eq, Structural, Debug)]
pub struct StackUsage {
    pub size: u32,
    pub used: u32,
    pub free: u32,
    pub base: u32,
    pub sp: u32,
}

/// A thread as the device reports it.
pub struct ThreadInfo {
    pub pid: u8,
    pub name: String,
    /// The state, as a status code.
    pub state: u32,
    /// Whether the thread is in the run queue.
    pub active: bool,
    pub prio: u32,
    pub stack: StackUsage,
}

/// A thread as a value.
pub struct ThreadView {
    pub pid: u8,
    pub name: Seq<char>,
    pub state: u32,
    pub active: bool,
    pub prio: u32,
    pub stack: StackUsage,
}

impl View for ThreadInfo {
    type V = ThreadView;

    open spec fn view(&self) -> ThreadView {
        ThreadView {
            pid: self.pid,
            name: self.name@,
            state: self.state,
            active: self.active,
            prio: self.prio,
            stack: self.stack,
        }
    }
}

/// The device's answer to `Ps`: the interrupt stack and the threads.
pub struct PsReport {
    pub isr: StackUsage,
    pub threads: Vec<ThreadInfo>,
}

/// The answer as a value.
pub struct PsView {
    pub isr: StackUsage,
    pub threads: Seq<ThreadView>,
}

/// The views of a list of threads.
pub open spec fn thread_views(ts: Seq<ThreadInfo>) -> Seq<ThreadView> {
    ts.map_values(|t: ThreadInfo| t@)
}

impl View for PsReport {
    type V = PsView;

    open spec fn view(&self) -> PsView {
        PsView { isr: self.isr, threads: thread_views(self.threads@) }
    }
}

/// Five unsigned integers at `pos`: stack size, use, free space, base
/// address and stack pointer.
pub open spec fn stack_at(b: Seq<u8>, pos: int) -> Option<(StackUsage, int)> {
    match cbor_u32(b, pos) {
        Some((size, p1)) => match cbor_u32(b, p1) {
            Some((used, p2)) => match cbor_u32(b, p2) {
                Some((free, p3)) => match cbor_u32(b, p3) {
                    Some((base, p4)) => match cbor_u32(b, p4) {
                        Some((sp, p5)) => Some((StackUsage { size, used, free, base, sp }, p5)),
                        None => None,
                    },
                    None => None,
                },
                None => None,
            },
            None => None,
        },
        None => None,
    }
}

/// A thread at `pos`: an array start, the pid, the name, the state code,
/// whether it is queued, the priority and its stack.
pub open spec fn thread_at(b: Seq<u8>, pos: int) -> Option<(ThreadView, int)> {
    match cbor_array(b, pos) {
        Some((_, p0)) => match cbor_u8(b, p0) {
            Some((pid, p1)) => match cbor_str(b, p1) {
                Some((name, p2)) => match cbor_u32(b, p2) {
                    Some((state, p3)) => match cbor_bool(b, p3) {
                        Some((active, p4)) => match cbor_u32(b, p4) {
                            Some((prio, p5)) => match stack_at(b, p5) {
                                Some((stack, p6)) => Some(
                                    (ThreadView { pid, name, state, active, prio, stack }, p6),
                                ),
                                None => None,
                            },
                            None => None,
                        },
                        None => None,
                    },
                    None => None,
                },
                None => None,
            },
            None => None,
        },
        None => None,
    }
}

/// `pre` put in front of a list that may be missing.
pub open spec fn prepend<A>(pre: Seq<A>, rest: Option<Seq<A>>) -> Option<Seq<A>> {
    match rest {
        Some(r) => Some(pre + r),
        None => None,
    }
}

/// The threads from `pos` on, for as long as an array starts there; `None`
/// when one of them is cut short.
pub open spec fn threads_from(b: Seq<u8>, pos: int) -> Option<Seq<ThreadView>>
    decreases b.len() - pos,
{
    if cbor_array(b, pos) is None {
        Some(Seq::empty())
    } else {
        match thread_at(b, pos) {
            Some((t, next)) => if pos < next <= b.len() {
                prepend(seq![t], threads_from(b, next))
            } else {
                None
            },
            None => None,
        }
    }
}

/// The answer to `Ps`: an array holding the interrupt stack (an array of
/// five numbers) and an array of threads.
pub open spec fn ps_report(b: Seq<u8>) -> Option<PsView> {
    match cbor_array(b, 0) {
        Some((_, p1)) => match cbor_array(b, p1) {
            Some((_, p2)) => match stack_at(b, p2) {
                Some((isr, p3)) => match cbor_array(b, p3) {
                    Some((_, p4)) => match threads_from(b, p4) {
                        Some(threads) => Some(PsView { isr, threads }),
                        None => None,
                    },
                    None => None,
                },
                None => None,
            },
            None => None,
        },
        None => None,
    }
}

/// The sum of the stack sizes, uses and free spaces of the threads.
pub open spec fn thread_totals(ts: Seq<ThreadView>) -> (nat, nat, nat)
    decreases ts.len(),
{
    if ts.len() == 0 {
        (0, 0, 0)
    } else {
        let (a, b, c) = thread_totals(ts.drop_last());
        let s = ts.last().stack;
        (a + s.size as nat, b + s.used as nat, c + s.free as nat)
    }
}

/// The totals of the whole answer, the interrupt stack included.
pub open spec fn ps_totals(r: PsView) -> (nat, nat, nat) {
    let (a, b, c) = thread_totals(r.threads);
    (a + r.isr.size as nat, b + r.isr.used as nat, c + r.isr.free as nat)
}

/// Whether the totals fit the 32-bit counters they are summed in.
pub open spec fn totals_fit(r: PsView) -> bool {
    let (a, b, c) = ps_totals(r);
    a <= u32::MAX && b <= u32::MAX && c <= u32::MAX
}

/// The stack columns: size, use and free space, right-aligned in six.
pub open spec fn stack_columns(size: nat, used: nat, free: nat) -> Seq<char> {
    align_right(digits(size, 10), 6) + " "@ + align_right(digits(used, 10), 6) + " "@
        + align_right(digits(free, 10), 6)
}

/// The table's column titles.
pub open spec fn ps_header() -> Seq<char> {
    align_center("pid"@, 3) + " | "@ + align_center("name"@, 20) + " | "@ + align_center("state"@, 8)
        + " "@ + align_center("Q"@, 1) + " | "@ + align_center("pri"@, 3) + " | "@ + align_right(
        "stack"@,
        6,
    ) + " "@ + align_right("(used)"@, 6) + " "@ + align_right("(free)"@, 6) + " | "@
        + align_center("base addr"@, 10) + " | "@ + align_center("sp"@, 10) + "\n"@
}

/// The row of the interrupt stack.
pub open spec fn isr_row(s: StackUsage) -> Seq<char> {
    align_right("-"@, 3) + " | "@ + align_left("isr_stack"@, 20) + " | "@ + align_center("-"@, 8)
        + " "@ + align_center("-"@, 1) + " | "@ + align_right("-"@, 3) + " | "@ + stack_columns(
        s.size as nat,
        s.used as nat,
        s.free as nat,
    ) + " | "@ + hex_word(s.base) + " | "@ + hex_word(s.sp) + "\n"@
}

/// How a thread's place in the run queue is shown.
pub open spec fn queue_mark(active: bool) -> Seq<char> {
    if active {
        "\u{2714}"@
    } else {
        "\u{2715}"@
    }
}

/// The row of a thread.
pub open spec fn thread_row(t: ThreadView) -> Seq<char> {
    align_right(digits(t.pid as nat, 10), 3) + " | "@ + align_left(t.name, 20) + " | "@ + align_left(
        status_text(status_of_code(t.state)),
        8,
    ) + " "@ + align_center(queue_mark(t.active), 1) + " | "@ + align_right(digits(t.prio as nat, 10), 3)
        + " | "@ + stack_columns(t.stack.size as nat, t.stack.used as nat, t.stack.free as nat) + " | "@
        + hex_word(t.stack.base) + " | "@ + hex_word(t.stack.sp) + "\n"@
}

/// The rows of the threads, in order.
pub open spec fn thread_rows(ts: Seq<ThreadView>) -> Seq<char>
    decreases ts.len(),
{
    if ts.len() == 0 {
        Seq::empty()
    } else {
        thread_rows(ts.drop_last()) + thread_row(ts.last())
    }
}

/// The row of the totals.
pub open spec fn sum_row(t: (nat, nat, nat)) -> Seq<char> {
    align_right(" "@, 3) + " | "@ + align_left("SUM"@, 20) + " | "@ + align_center(" "@, 8) + " "@
        + align_center(" "@, 1) + " | "@ + align_right(" "@, 3) + " | "@ + stack_columns(t.0, t.1, t.2)
        + "\n"@
}

/// The thread table: an empty line, the titles, the interrupt stack, the
/// threads and the totals.
pub open spec fn ps_table_text(r: PsView) -> Seq<char> {
    "\n"@ + ps_header() + isr_row(r.isr) + thread_rows(r.threads) + sum_row(ps_totals(r))
}

/// Reads the five numbers of a stack at `pos`.
fn read_stack(b: &[u8], pos: usize) -> (r: Option<(StackUsage, usize)>)
    ensures
        match stack_at(b@, pos as int) {
            Some((s, next)) => r matches Some((got, end)) && got == s && end as int == next,
            None => r is None,
        },
{
    let (size, p1) = match read_u32(b, pos) {
        Some(x) => x,
        None => return None,
    };
    let (used, p2) = match read_u32(b, p1) {
        Some(x) => x,
        None => return None,
    };
    let (free, p3) = match read_u32(b, p2) {
        Some(x) => x,
        None => return None,
    };
    let (base, p4) = match read_u32(b, p3) {
        Some(x) => x,
        None => return None,
    };
    let (sp, p5) = match read_u32(b, p4) {
        Some(x) => x,
        None => return None,
    };
    Some((StackUsage { size, used, free, base, sp }, p5))
}

/// Reads the thread at `pos`.
fn read_thread(b: &[u8], pos: usize) -> (r: Option<(ThreadInfo, usize)>)
    ensures
        match thread_at(b@, pos as int) {
            Some((t, next)) => r matches Some((got, end)) && got@ == t && end as int == next,
            None => r is None,
        },
{
    let p0 = match read_array(b, pos) {
        Some((_, p)) => p,
        None => return None,
    };
    let (pid, p1) = match read_u8(b, p0) {
        Some(x) => x,
        None => return None,
    };
    let (name, p2) = match read_str(b, p1) {
        Some(x) => x,
        None => return None,
    };
    let (state, p3) = match read_u32(b, p2) {
        Some(x) => x,
        None => return None,
    };
    let (active, p4) = match read_bool(b, p3) {
        Some(x) => x,
        None => return None,
    };
    let (prio, p5) = match read_u32(b, p4) {
        Some(x) => x,
        None => return None,
    };
    let (stack, p6) = match read_stack(b, p5) {
        Some(x) => x,
        None => return None,
    };
    Some((ThreadInfo { pid, name, state, active, prio, stack }, p6))
}

/// Reads the threads from `pos` on (see `threads_from`).
fn read_threads(b: &[u8], pos: usize) -> (r: Option<Vec<ThreadInfo>>)
    ensures
        match threads_from(b@, pos as int) {
            Some(ts) => r matches Some(v) && thread_views(v@) == ts,
            None => r is None,
        },
{
    let mut out: Vec<ThreadInfo> = Vec::new();
    let mut p = pos;
    if p > b.len() {
        assert(cbor_array(b@, p as int) is None);
        assert(thread_views(out@) =~= Seq::<ThreadView>::empty());
        return Some(out);
    }
    loop
        invariant
            p <= b.len(),
            threads_from(b@, pos as int) == prepend(thread_views(out@), threads_from(b@, p as int)),
        decreases b.len() - p,
    {
        if read_array(b, p).is_none() {
            assert(thread_views(out@) + Seq::<ThreadView>::empty() =~= thread_views(out@));
            return Some(out);
        }
        match read_thread(b, p) {
            Some((t, next)) => {
                if next <= p || next > b.len() {
                    return None;
                }
                let ghost before = thread_views(out@);
                let ghost tv = t@;
                out.push(t);
                assert(thread_views(out@) =~= before.push(tv));
                assert(threads_from(b@, p as int) == prepend(seq![tv], threads_from(b@, next as int)));
                proof {
                    match threads_from(b@, next as int) {
                        Some(rest) => {
                            assert(before + (seq![tv] + rest) =~= before.push(tv) + rest);
                        },
                        None => {},
                    }
                }
                p = next;
            },
            None => {
                return None;
            },
        }
    }
}

/// Reads the device's answer to `Ps` (see `ps_report`).
pub fn decode_ps(payload: &[u8]) -> (r: Option<PsReport>)
    ensures
        match ps_report(payload@) {
            Some(v) => r matches Some(got) && got@ == v,
            None => r is None,
        },
{
    let p1 = match read_array(payload, 0) {
        Some((_, p)) => p,
        None => return None,
    };
    let p2 = match read_array(payload, p1) {
        Some((_, p)) => p,
        None => return None,
    };
    let (isr, p3) = match read_stack(payload, p2) {
        Some(x) => x,
        None => return None,
    };
    let p4 = match read_array(payload, p3) {
        Some((_, p)) => p,
        None => return None,
    };
    match read_threads(payload, p4) {
        Some(threads) => Some(PsReport { isr, threads }),
        None => None,
    }
}

/// The totals of a prefix of the threads are at most those of all of
/// them.
proof fn lemma_totals_prefix(ts: Seq<ThreadView>, i: int)
    requires
        0 <= i <= ts.len(),
    ensures
        thread_totals(ts.take(i)).0 <= thread_totals(ts).0,
        thread_totals(ts.take(i)).1 <= thread_totals(ts).1,
        thread_totals(ts.take(i)).2 <= thread_totals(ts).2,
    decreases ts.len(),
{
    if i == ts.len() {
        assert(ts.take(i) =~= ts);
    } else {
        lemma_totals_prefix(ts.drop_last(), i);
        assert(ts.drop_last().take(i) =~= ts.take(i));
    }
}

/// The three stack columns.
fn stack_columns_string(size: u32, used: u32, free: u32) -> (r: String)
    ensures
        r@ == stack_columns(size as nat, used as nat, free as nat),
{
    let mut line = right(decimal(size as u64).as_str(), 6);
    string_push_str(&mut line, " ");
    string_push_str(&mut line, right(decimal(used as u64).as_str(), 6).as_str());
    string_push_str(&mut line, " ");
    string_push_str(&mut line, right(decimal(free as u64).as_str(), 6).as_str());
    line
}

/// The column titles.
fn header_string() -> (r: String)
    ensures
        r@ == ps_header(),
{
    let mut line = center("pid", 3);
    string_push_str(&mut line, " | ");
    string_push_str(&mut line, center("name", 20).as_str());
    string_push_str(&mut line, " | ");
    string_push_str(&mut line, center("state", 8).as_str());
    string_push_str(&mut line, " ");
    string_push_str(&mut line, center("Q", 1).as_str());
    string_push_str(&mut line, " | ");
    string_push_str(&mut line, center("pri", 3).as_str());
    string_push_str(&mut line, " | ");
    string_push_str(&mut line, right("stack", 6).as_str());
    string_push_str(&mut line, " ");
    string_push_str(&mut line, right("(used)", 6).as_str());
    string_push_str(&mut line, " ");
    string_push_str(&mut line, right("(free)", 6).as_str());
    string_push_str(&mut line, " | ");
    string_push_str(&mut line, center("base addr", 10).as_str());
    string_push_str(&mut line, " | ");
    string_push_str(&mut line, center("sp", 10).as_str());
    string_push_str(&mut line, "\n");
    line
}

/// The row of the interrupt stack.
fn isr_row_string(s: StackUsage) -> (r: String)
    ensures
        r@ == isr_row(s),
{
    let mut line = right("-", 3);
    string_push_str(&mut line, " | ");
    string_push_str(&mut line, left("isr_stack", 20).as_str());
    string_push_str(&mut line, " | ");
    string_push_str(&mut line, center("-", 8).as_str());
    string_push_str(&mut line, " ");
    string_push_str(&mut line, center("-", 1).as_str());
    string_push_str(&mut line, " | ");
    string_push_str(&mut line, right("-", 3).as_str());
    string_push_str(&mut line, " | ");
    string_push_str(&mut line, stack_columns_string(s.size, s.used, s.free).as_str());
    string_push_str(&mut line, " | ");
    string_push_str(&mut line, hex_word_string(s.base).as_str());
    string_push_str(&mut line, " | ");
    string_push_str(&mut line, hex_word_string(s.sp).as_str());
    string_push_str(&mut line, "\n");
    line
}

/// The row of a thread.
fn thread_row_string(t: &ThreadInfo) -> (r: String)
    ensures
        r@ == thread_row(t@),
{
    let mut line = right(decimal(t.pid as u64).as_str(), 3);
    string_push_str(&mut line, " | ");
    string_push_str(&mut line, left(t.name.as_str(), 20).as_str());
    string_push_str(&mut line, " | ");
    let state = ThreadStatus::from_u32(t.state).to_text();
    string_push_str(&mut line, left(state.as_str(), 8).as_str());
    string_push_str(&mut line, " ");
    let mark = if t.active {
        center("\u{2714}", 1)
    } else {
        center("\u{2715}", 1)
    };
    string_push_str(&mut line, mark.as_str());
    string_push_str(&mut line, " | ");
    string_push_str(&mut line, right(decimal(t.prio as u64).as_str(), 3).as_str());
    string_push_str(&mut line, " | ");
    string_push_str(&mut line, stack_columns_string(t.stack.size, t.stack.used, t.stack.free).as_str());
    string_push_str(&mut line, " | ");
    string_push_str(&mut line, hex_word_string(t.stack.base).as_str());
    string_push_str(&mut line, " | ");
    string_push_str(&mut line, hex_word_string(t.stack.sp).as_str());
    string_push_str(&mut line, "\n");
    line
}

/// The row of the totals.
fn sum_row_string(size: u32, used: u32, free: u32) -> (r: String)
    ensures
        r@ == sum_row((size as nat, used as nat, free as nat)),
{
    let mut line = right(" ", 3);
    string_push_str(&mut line, " | ");
    string_push_str(&mut line, left("SUM", 20).as_str());
    string_push_str(&mut line, " | ");
    string_push_str(&mut line, center(" ", 8).as_str());
    string_push_str(&mut line, " ");
    string_push_str(&mut line, center(" ", 1).as_str());
    string_push_str(&mut line, " | ");
    string_push_str(&mut line, right(" ", 3).as_str());
    string_push_str(&mut line, " | ");
    string_push_str(&mut line, stack_columns_string(size, used, free).as_str());
    string_push_str(&mut line, "\n");
    line
}

/// The thread table for an answer whose totals fit in 32 bits.
pub fn ps_table(report: &PsReport) -> (r: String)
    requires
        totals_fit(report@),
    ensures
        r@ == ps_table_text(report@),
{
    let ghost ts = report@.threads;
    let mut out = "\n".to_owned();
    string_push_str(&mut out, header_string().as_str());
    string_push_str(&mut out, isr_row_string(report.isr).as_str());
    let ghost front = out@;
    let mut sum_size: u32 = 0;
    let mut sum_used: u32 = 0;
    let mut sum_free: u32 = 0;
    assert(ts.take(0) =~= Seq::<ThreadView>::empty());
    for i in 0..report.threads.len()
        invariant
            ts == report@.threads,
            ts.len() == report.threads@.len(),
            totals_fit(report@),
            out@ == front + thread_rows(ts.take(i as int)),
            (sum_size as nat, sum_used as nat, sum_free as nat) == thread_totals(ts.take(i as int)),
    {
        let t = &report.threads[i];
        assert(ts[i as int] == t@);
        assert(ts.take(i + 1).drop_last() =~= ts.take(i as int));
        proof {
            lemma_totals_prefix(ts, i + 1);
        }
        sum_size = sum_size + t.stack.size;
        sum_used = sum_used + t.stack.used;
        sum_free = sum_free + t.stack.free;
        string_push_str(&mut out, thread_row_string(t).as_str());
    }
    assert(ts.take(ts.len() as int) =~= ts);
    let total_size = sum_size + report.isr.size;
    let total_used = sum_used + report.isr.used;
    let total_free = sum_free + report.isr.free;
    string_push_str(&mut out, sum_row_string(total_size, total_used, total_free).as_str());
    out
}

/// Lists the device's threads: one GET, and the answer shown as a table.
pub struct Ps {
    location: String,
    buffer: String,
    payload: Vec<u8>,
    finished: bool,
    displayable: bool,
}

/// The state of a `Ps` handler as values.
pub struct PsState {
    pub location: Seq<char>,
    /// The table, once the answer came.
    pub buffer: Seq<char>,
    /// The answer as it came.
    pub payload: Seq<u8>,
    pub finished: bool,
    pub displayable: bool,
}

impl View for Ps {
    type V = PsState;

    closed spec fn view(&self) -> PsState {
        PsState {
            location: self.location@,
            buffer: self.buffer@,
            payload: self.payload@,
            finished: self.finished,
            displayable: self.displayable,
        }
    }
}

/// Whether an answer can be shown: it decodes, and its totals fit in 32
/// bits.
pub open spec fn ps_accepts(payload: Seq<u8>) -> bool {
    ps_report(payload) matches Some(r) && totals_fit(r)
}

/// The state after the answer `payload` came to a handler at `s`.
pub open spec fn ps_after(s: PsState, payload: Seq<u8>) -> PsState {
    PsState {
        buffer: ps_table_text(ps_report(payload)->0),
        payload,
        finished: true,
        displayable: true,
        ..s
    }
}

impl Ps {
    /// A handler for the command's first end-point, nothing received yet.
    pub fn parse(cmd: &Command) -> (r: Self)
        requires
            cmd@.required_endpoints.len() > 0,
        ensures
            r@ == (PsState {
                location: cmd@.required_endpoints[0],
                buffer: Seq::empty(),
                payload: Seq::empty(),
                finished: false,
                displayable: false,
            }),
    {
        let r = Self {
            location: cmd.required_endpoints[0].clone(),
            buffer: String::new(),
            payload: Vec::new(),
            finished: false,
            displayable: false,
        };
        assert(r@.payload =~= Seq::<u8>::empty());
        r
    }

    /// The GET request for the end-point.
    pub fn init(&mut self) -> (r: RequestPlan)
        ensures
            r@ == (RequestView { method: super::super::request::Method::Get, path: old(self)@.location, query: None, cbor: false, payload: Seq::empty() }),
            final(self)@ == old(self)@,
    {
        RequestPlan::get(self.location.as_str())
    }

    /// Whether `payload` is an answer that can be shown (see `ps_accepts`).
    pub fn accepts(payload: &[u8]) -> (r: bool)
        ensures
            r == ps_accepts(payload@),
    {
        match decode_ps(payload) {
            Some(report) => {
                let mut size: u64 = report.isr.size as u64;
                let mut used: u64 = report.isr.used as u64;
                let mut free: u64 = report.isr.free as u64;
                let ghost ts = report@.threads;
                assert(ts.take(0) =~= Seq::<ThreadView>::empty());
                for i in 0..report.threads.len()
                    invariant
                        ps_report(payload@) == Some(report@),
                        ts == report@.threads,
                        ts.len() == report.threads@.len(),
                        size == thread_totals(ts.take(i as int)).0 + report.isr.size,
                        used == thread_totals(ts.take(i as int)).1 + report.isr.used,
                        free == thread_totals(ts.take(i as int)).2 + report.isr.free,
                        size <= 2 * 0xffff_ffffu64,
                        used <= 2 * 0xffff_ffffu64,
                        free <= 2 * 0xffff_ffffu64,
                {
                    if size > 0xffff_ffff || used > 0xffff_ffff || free > 0xffff_ffff {
                        proof {
                            lemma_totals_prefix(ts, i as int);
                            let t = ps_totals(report@);
                            assert(t.0 == thread_totals(ts).0 + report.isr.size);
                            assert(t.1 == thread_totals(ts).1 + report.isr.used);
                            assert(t.2 == thread_totals(ts).2 + report.isr.free);
                            assert(!totals_fit(report@));
                        }
                        return false;
                    }
                    let t = &report.threads[i];
                    assert(ts[i as int] == t@);
                    assert(ts.take(i + 1).drop_last() =~= ts.take(i as int));
                    size = size + t.stack.size as u64;
                    used = used + t.stack.used as u64;
                    free = free + t.stack.free as u64;
                }
                assert(ts.take(ts.len() as int) =~= ts);
                size <= 0xffff_ffff && used <= 0xffff_ffff && free <= 0xffff_ffff
            },
            None => false,
        }
    }

    /// Takes the answer: it is kept, shown as the thread table, and the
    /// handler is done.
    pub fn handle(&mut self, payload: &[u8]) -> (r: Option<RequestPlan>)
        requires
            ps_accepts(payload@),
        ensures
            r is None,
            final(self)@ == ps_after(old(self)@, payload@),
    {
        self.payload = crate::seqs::copy_bytes(payload);
        let report = match decode_ps(payload) {
            Some(x) => x,
            None => {
                return None;
            },
        };
        self.buffer = ps_table(&report);
        self.finished = true;
        self.displayable = true;
        None
    }

    pub fn want_display(&self) -> (r: bool)
        ensures
            r == self@.displayable,
    {
        self.displayable
    }

    pub fn is_finished(&self) -> (r: bool)
        ensures
            r == self@.finished,
    {
        self.finished
    }

    /// Writes the table and a newline into `buffer`.
    pub fn display(&self, buffer: &mut String)
        ensures
            final(buffer)@ == old(buffer)@ + self@.buffer.push('\n'),
    {
        buffer.append(self.buffer.as_str());
        crate::text::string_push(buffer, '\n');
    }

    /// The answer as it came.
    pub fn export(&self) -> (r: Vec<u8>)
        ensures
            r@ == self@.payload,
    {
        self.payload.clone()
    }
}

} // verus!
