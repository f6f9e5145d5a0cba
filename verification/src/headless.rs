//! The decisions of a headless configuration session: commands are read
//! until the end of the input, and their output is shown once all of them
//! are done, or the session gives up when the device stops answering.

use vstd::prelude::*;

verus! {

/// What reaches a headless configuration session.
#[derive(Clone, Copy, PartialEq, Eq, Structural, Debug)]
pub enum SessionEvent {
    /// Nothing came for the waiting time.
    Timeout,
    /// A line of input.
    Line,
    /// The input ended.
    Eof,
    /// A configuration message from the device.
    Configuration,
    /// The device went away.
    Disconnect,
    /// Anything else.
    Other,
}

/// What the session does about an event.
pub enum SessionAction {
    /// Nothing: wait for the next event.
    Wait,
    /// Hand the line or the message to the shell.
    Take,
    /// Show the text and end the session.
    Stop(String),
}

/// A headless configuration session: whether the input has ended.
pub struct ConfigurationSession {
    pub eof: bool,
}

/// The text shown when the device stops answering after the input ended.
pub open spec fn timeout_text() -> Seq<char> {
    "\nTime-out, no response from device :("@
}

/// The text shown when the device goes away.
pub open spec fn disconnect_text() -> Seq<char> {
    "\nSerial disconnect :("@
}

impl ConfigurationSession {
    /// A session whose input is still open.
    pub fn new() -> (r: Self)
        ensures
            !r.eof,
    {
        Self { eof: false }
    }

    /// Decides what to do about `event`: a time-out ends the session only
    /// once the input has ended; lines and messages go to the shell; the
    /// end of the input is noted; a disconnect ends the session.
    pub fn on_event(&mut self, event: SessionEvent) -> (r: SessionAction)
        ensures
            final(self).eof == (old(self).eof || event == SessionEvent::Eof),
            match event {
                SessionEvent::Timeout => if old(self).eof {
                    r matches SessionAction::Stop(t) && t@ == timeout_text()
                } else {
                    r is Wait
                },
                SessionEvent::Line | SessionEvent::Configuration => r is Take,
                SessionEvent::Disconnect => r matches SessionAction::Stop(t) && t@ == disconnect_text(),
                _ => r is Wait,
            },
    {
        match event {
            SessionEvent::Timeout => if self.eof {
                SessionAction::Stop("\nTime-out, no response from device :(".to_owned())
            } else {
                SessionAction::Wait
            },
            SessionEvent::Line | SessionEvent::Configuration => SessionAction::Take,
            SessionEvent::Eof => {
                self.eof = true;
                SessionAction::Wait
            },
            SessionEvent::Disconnect => SessionAction::Stop("\nSerial disconnect :(".to_owned()),
            SessionEvent::Other => SessionAction::Wait,
        }
    }

    /// Whether the output is shown and the session ends: once the input has
    /// ended and no command is unfinished.
    pub fn done(&self, unfinished: usize) -> (r: bool)
        ensures
            r == (self.eof && unfinished == 0),
    {
        self.eof && unfinished == 0
    }
}

/// How a step of a session ends.
#[derive(Clone, Copy, PartialEq, Eq, Structural, Debug)]
pub enum Outcome {
    /// The session goes on.
    Continue,
    /// The device stopped answering after the input ended.
    TimedOut,
    /// The device went away.
    Disconnected,
    /// The input ended and every command is done: the output is shown,
    /// what every job showed in the order their lines were read (see
    /// `App::job_log_text`).
    Finished,
}

/// One step of a session that has (`eof`) or has not seen the end of its
/// input: the event `e` arrives, after which `unfinished` commands are not
/// done.  A time-out ends the session only after the end of the input, and
/// then nothing else is checked; a disconnect ends it; after any other
/// event the output is shown once the input has ended and every command is
/// done (see `ConfigurationSession::on_event` and `done`).
pub open spec fn session_next(eof: bool, e: SessionEvent, unfinished: nat) -> (bool, Outcome) {
    let eof2 = eof || e == SessionEvent::Eof;
    match e {
        SessionEvent::Timeout => if eof {
            (eof, Outcome::TimedOut)
        } else {
            (eof, Outcome::Continue)
        },
        SessionEvent::Disconnect => (eof, Outcome::Disconnected),
        _ => if eof2 && unfinished == 0 {
            (eof2, Outcome::Finished)
        } else {
            (eof2, Outcome::Continue)
        },
    }
}

/// A whole run: the events in turn, each with the number of unfinished
/// commands after it, from a session in state `eof`; the first step that
/// ends the session and how, if one does.
pub open spec fn session_run(eof: bool, events: Seq<(SessionEvent, nat)>) -> Option<(int, Outcome)>
    decreases events.len(),
{
    if events.len() == 0 {
        None
    } else {
        let (eof2, o) = session_next(eof, events[0].0, events[0].1);
        if o != Outcome::Continue {
            Some((0, o))
        } else {
            match session_run(eof2, events.drop_first()) {
                Some((k, o2)) => Some((k + 1, o2)),
                None => None,
            }
        }
    }
}

/// Over a whole run, the output is shown only after the end of the input:
/// a run that starts with the input open and ends by showing the output
/// has seen the end of the input by then, and no command is unfinished at
/// that step.
pub proof fn law_output_waits_for_end_of_input(eof: bool, events: Seq<(SessionEvent, nat)>)
    ensures
        session_run(eof, events) matches Some((k, Outcome::Finished)) ==> 0 <= k < events.len() && events[k].1
            == 0 && (eof || exists|j: int| 0 <= j <= k && (#[trigger] events[j]).0 == SessionEvent::Eof),
    decreases events.len(),
{
    if events.len() > 0 {
        let (eof2, o) = session_next(eof, events[0].0, events[0].1);
        law_output_waits_for_end_of_input(eof2, events.drop_first());
        if o == Outcome::Continue {
            if let Some((k, Outcome::Finished)) = session_run(eof2, events.drop_first()) {
                assert(events.drop_first()[k] == events[k + 1]);
                if !eof2 {
                    let j = choose|j: int| 0 <= j <= k && (#[trigger] events.drop_first()[j]).0 == SessionEvent::Eof;
                    assert(events[j + 1] == events.drop_first()[j]);
                } else if !eof {
                    assert(events[0].0 == SessionEvent::Eof);
                }
            }
        }
    }
}

/// Once the input has ended, a run shows the output at the first event that
/// is no time-out or disconnect and after which no command is unfinished.
pub proof fn law_finishes_when_commands_are_done(events: Seq<(SessionEvent, nat)>, k: int)
    requires
        0 <= k < events.len(),
        events[k].1 == 0,
        events[k].0 != SessionEvent::Timeout && events[k].0 != SessionEvent::Disconnect,
        forall|i: int| 0 <= i < k ==> (#[trigger] events[i]).0 != SessionEvent::Timeout && events[i].0
            != SessionEvent::Disconnect && events[i].1 > 0,
    ensures
        session_run(true, events) == Some((k, Outcome::Finished)),
    decreases k,
{
    if k > 0 {
        assert(events[0].1 > 0);
        let rest = events.drop_first();
        assert forall|i: int| 0 <= i < k - 1 implies (#[trigger] rest[i]).0 != SessionEvent::Timeout && rest[i].0
            != SessionEvent::Disconnect && rest[i].1 > 0 by {
            assert(rest[i] == events[i + 1]);
        }
        assert(rest[k - 1] == events[k]);
        law_finishes_when_commands_are_done(rest, k - 1);
    }
}

/// A whole scripted run that neither times out nor loses the device: lines
/// and messages come, the input ends at event `e`, and the run shows its
/// output and ends exactly at the first event `k` from `e` on after which no
/// command is unfinished; before `e` nothing is shown, whatever the counts.
pub proof fn law_scripted_run(events: Seq<(SessionEvent, nat)>, e: int, k: int)
    requires
        0 <= e <= k < events.len(),
        events[e].0 == SessionEvent::Eof,
        forall|i: int| 0 <= i < e ==> (#[trigger] events[i]).0 != SessionEvent::Eof,
        forall|i: int|
            0 <= i <= k ==> (#[trigger] events[i]).0 != SessionEvent::Timeout && events[i].0 != SessionEvent::Disconnect,
        events[k].1 == 0,
        forall|i: int| e <= i < k ==> (#[trigger] events[i]).1 > 0,
    ensures
        session_run(false, events) == Some((k, Outcome::Finished)),
    decreases e,
{
    if e == 0 {
        let rest = events.drop_first();
        if k > 0 {
            assert forall|i: int| 0 <= i < k - 1 implies (#[trigger] rest[i]).0 != SessionEvent::Timeout && rest[i].0
                != SessionEvent::Disconnect && rest[i].1 > 0 by {
                assert(rest[i] == events[i + 1]);
            }
            assert(rest[k - 1] == events[k]);
            law_finishes_when_commands_are_done(rest, k - 1);
        }
    } else {
        let rest = events.drop_first();
        assert(events[0].0 != SessionEvent::Eof);
        assert(rest[e - 1] == events[e]);
        assert forall|i: int| 0 <= i < e - 1 implies (#[trigger] rest[i]).0 != SessionEvent::Eof by {
            assert(rest[i] == events[i + 1]);
        }
        assert forall|i: int| 0 <= i <= k - 1 implies (#[trigger] rest[i]).0 != SessionEvent::Timeout && rest[i].0
            != SessionEvent::Disconnect by {
            assert(rest[i] == events[i + 1]);
        }
        assert forall|i: int| e - 1 <= i < k - 1 implies (#[trigger] rest[i]).1 > 0 by {
            assert(rest[i] == events[i + 1]);
        }
        assert(rest[k - 1] == events[k]);
        law_scripted_run(rest, e - 1, k - 1);
    }
}

} // verus!
