//! Handing the password over: printed, or stored in the clipboard.
//!
//! The delivery is a state machine. Its owner performs one [`Action`] at a
//! time and reports what came of it as an [`Event`]; [`State::step`] answers
//! with the next action. Nothing here touches the terminal, the clipboard or
//! the process table.

use crate::error::Error;
use nix::errno::Errno;
use vstd::prelude::*;

verus! {

/// What the clipboard of the platform does with its contents when the
/// process that stored them exits.
#[derive(Debug, Clone, Copy, PartialEq, Eq, Structural)]
pub enum Platform {
    /// The contents stay available.
    Persistent,
    /// The contents are gone at once: somebody has to stay behind and hold them.
    Transient,
}

/// Which side of a fork a process finds itself on.
#[derive(Debug, Clone, Copy, PartialEq, Eq, Structural)]
pub enum ForkOutcome {
    /// The process that forked; `child` is the process identifier of the other one.
    Parent { child: i32 },
    /// The new process.
    Child,
}

/// How a run ended well.
#[derive(Debug, Clone, Copy, PartialEq, Eq, Structural)]
pub enum Outcome {
    /// The password went to the standard output.
    Printed,
    /// The password is in the clipboard.
    Copied,
    /// The process `child` was started to put the password into the
    /// clipboard and to hold it there.
    HolderStarted { child: i32 },
}

/// What the owner of the machine is to do next.
#[derive(Debug)]
pub enum Action {
    /// Write `line` to the standard output as it is.
    Print { line: String },
    /// Fork the process.
    Fork,
    /// Make the process the leader of a new session.
    CreateSession,
    /// Initialize the clipboard.
    OpenClipboard,
    /// Store `text` in the clipboard as it is; with `wait`, return only when
    /// the clipboard's contents have been replaced by something else.
    Store { text: String, wait: bool },
    /// Stop: the run has ended with `outcome`.
    Finish { outcome: Result<Outcome, Error> },
}

/// What came of the last action.
#[derive(Debug)]
pub enum Event {
    /// The line was written.
    Printed,
    /// The fork returned.
    Forked(Result<ForkOutcome, Errno>),
    /// The creation of the session returned.
    SessionCreated(Result<(), Errno>),
    /// The initialization of the clipboard returned.
    ClipboardOpened(Result<(), arboard::Error>),
    /// The store into the clipboard returned.
    Stored(Result<(), arboard::Error>),
}

/// Where a delivery stands.
#[derive(Debug)]
pub enum State {
    /// The line is being written.
    Printing,
    /// The process is being forked.
    Forking { password: String },
    /// The new process is leaving the session it was born into.
    Detaching { password: String },
    /// The clipboard is being initialized.
    Opening { password: String, wait: bool },
    /// The password is being stored.
    Storing,
    /// Nothing is left to do.
    Finished,
}

impl State {
    /// Whether the machine, in this state, is waiting for `event`.
    pub open spec fn awaits(self, event: Event) -> bool {
        match (self, event) {
            (State::Printing, Event::Printed) => true,
            (State::Forking { .. }, Event::Forked(_)) => true,
            (State::Detaching { .. }, Event::SessionCreated(_)) => true,
            (State::Opening { .. }, Event::ClipboardOpened(_)) => true,
            (State::Storing, Event::Stored(_)) => true,
            _ => false,
        }
    }

    /// The state that follows this one on `event`, and the action that it asks for.
    ///
    /// Every failure ends the delivery at once with the error that names the
    /// step and carries what the platform reported. Only a clipboard that was
    /// initialized is asked to store anything.
    pub open spec fn transition(self, event: Event) -> (State, Action) {
        match (self, event) {
            (State::Printing, Event::Printed) => (
                State::Finished,
                Action::Finish { outcome: Ok(Outcome::Printed) },
            ),
            (State::Forking { password }, Event::Forked(Ok(ForkOutcome::Child))) => (
                State::Detaching { password },
                Action::CreateSession,
            ),
            (State::Forking { .. }, Event::Forked(Ok(ForkOutcome::Parent { child }))) => (
                State::Finished,
                Action::Finish { outcome: Ok(Outcome::HolderStarted { child }) },
            ),
            (State::Forking { .. }, Event::Forked(Err(source))) => (
                State::Finished,
                Action::Finish { outcome: Err(Error::ForkFailed { source }) },
            ),
            (State::Detaching { password }, Event::SessionCreated(Ok(_))) => (
                State::Opening { password, wait: true },
                Action::OpenClipboard,
            ),
            (State::Detaching { .. }, Event::SessionCreated(Err(source))) => (
                State::Finished,
                Action::Finish { outcome: Err(Error::SessionCreate { source }) },
            ),
            (State::Opening { password, wait }, Event::ClipboardOpened(Ok(_))) => (
                State::Storing,
                Action::Store { text: password, wait },
            ),
            (State::Opening { .. }, Event::ClipboardOpened(Err(source))) => (
                State::Finished,
                Action::Finish { outcome: Err(Error::InitClipboard { source }) },
            ),
            (State::Storing, Event::Stored(Ok(_))) => (
                State::Finished,
                Action::Finish { outcome: Ok(Outcome::Copied) },
            ),
            (State::Storing, Event::Stored(Err(source))) => (
                State::Finished,
                Action::Finish { outcome: Err(Error::ClipboardStore { source }) },
            ),
            _ => (self, Action::Finish { outcome: Ok(Outcome::Printed) }),
        }
    }

    /// Takes `event` in. Returns the state that follows and the action to
    /// perform next, or `None` where this state was not waiting for `event`.
    pub fn step(self, event: Event) -> (next: Option<(State, Action)>)
        ensures
            next == if self.awaits(event) {
                Some(self.transition(event))
            } else {
                None
            },
    {
        match (self, event) {
            (State::Printing, Event::Printed) => Some(
                (State::Finished, Action::Finish { outcome: Ok(Outcome::Printed) }),
            ),
            (State::Forking { password }, Event::Forked(Ok(ForkOutcome::Child))) => Some(
                (State::Detaching { password }, Action::CreateSession),
            ),
            (State::Forking { .. }, Event::Forked(Ok(ForkOutcome::Parent { child }))) => Some(
                (State::Finished, Action::Finish { outcome: Ok(Outcome::HolderStarted { child }) }),
            ),
            (State::Forking { .. }, Event::Forked(Err(source))) => Some(
                (State::Finished, Action::Finish { outcome: Err(Error::ForkFailed { source }) }),
            ),
            (State::Detaching { password }, Event::SessionCreated(Ok(_))) => Some(
                (State::Opening { password, wait: true }, Action::OpenClipboard),
            ),
            (State::Detaching { .. }, Event::SessionCreated(Err(source))) => Some(
                (State::Finished, Action::Finish { outcome: Err(Error::SessionCreate { source }) }),
            ),
            (State::Opening { password, wait }, Event::ClipboardOpened(Ok(_))) => Some(
                (State::Storing, Action::Store { text: password, wait }),
            ),
            (State::Opening { .. }, Event::ClipboardOpened(Err(source))) => Some(
                (State::Finished, Action::Finish { outcome: Err(Error::InitClipboard { source }) }),
            ),
            (State::Storing, Event::Stored(Ok(_))) => Some(
                (State::Finished, Action::Finish { outcome: Ok(Outcome::Copied) }),
            ),
            (State::Storing, Event::Stored(Err(source))) => Some(
                (State::Finished, Action::Finish { outcome: Err(Error::ClipboardStore { source }) }),
            ),
            _ => None,
        }
    }
}

impl Event {
    /// Whether the event reports a failure.
    pub open spec fn failed(self) -> bool {
        match self {
            Event::Printed => false,
            Event::Forked(result) => result is Err,
            Event::SessionCreated(result) => result is Err,
            Event::ClipboardOpened(result) => result is Err,
            Event::Stored(result) => result is Err,
        }
    }
}

impl State {
    /// The most events that the machine can still take in.
    pub open spec fn remaining(self) -> nat {
        match self {
            State::Forking { .. } => 4,
            State::Detaching { .. } => 3,
            State::Opening { .. } => 2,
            State::Printing => 1,
            State::Storing => 1,
            State::Finished => 0,
        }
    }

    /// The password that is still to be stored, if there is one.
    pub open spec fn pending(self) -> Option<String> {
        match self {
            State::Forking { password } => Some(password),
            State::Detaching { password } => Some(password),
            State::Opening { password, .. } => Some(password),
            _ => None,
        }
    }
}

/// The actions that the machine asks for, in turn, when it is fed `events`
/// from `state` on. It takes nothing in from the first event on that it was
/// not waiting for.
pub open spec fn actions(state: State, events: Seq<Event>) -> Seq<Action>
    decreases events.len(),
{
    if events.len() == 0 || !state.awaits(events[0]) {
        Seq::empty()
    } else {
        seq![state.transition(events[0]).1] + actions(
            state.transition(events[0]).0,
            events.drop_first(),
        )
    }
}

/// A finished delivery takes no event in: nothing is done after the end.
pub proof fn lemma_finished_is_final(event: Event)
    ensures
        !State::Finished.awaits(event),
{
}

/// Every event taken in brings the end nearer, and the machine asks to
/// finish exactly when it has reached the end.
pub proof fn lemma_step_advances(state: State, event: Event)
    requires
        state.awaits(event),
    ensures
        state.transition(event).0.remaining() < state.remaining(),
        state.transition(event).1 is Finish <==> state.transition(event).0 is Finished,
{
}

/// A failure is fatal: the delivery ends at once, with the error of the step
/// that failed. Nothing is tried again.
pub proof fn lemma_failure_is_fatal(state: State, event: Event)
    requires
        state.awaits(event),
        event.failed(),
    ensures
        state.transition(event).0 is Finished,
        state.transition(event).1 matches Action::Finish { outcome: Err(error) } && match state {
            State::Forking { .. } => error is ForkFailed,
            State::Detaching { .. } => error is SessionCreate,
            State::Opening { .. } => error is InitClipboard,
            _ => error is ClipboardStore,
        },
{
}

/// A delivery is over after four events at most.
pub proof fn lemma_delivery_ends(state: State, events: Seq<Event>)
    ensures
        actions(state, events).len() <= state.remaining() <= 4,
    decreases events.len(),
{
    if events.len() > 0 && state.awaits(events[0]) {
        lemma_delivery_ends(state.transition(events[0]).0, events.drop_first());
    }
}

/// Whatever happens, the clipboard is written at most once, with the very
/// password that the delivery set out with, and a delivery to the clipboard
/// prints nothing.
pub proof fn lemma_stores_the_password_once(state: State, events: Seq<Event>)
    requires
        !(state is Printing),
    ensures
        forall|i: int|
            0 <= i < actions(state, events).len() ==> !(#[trigger] actions(state, events)[i]
                is Print),
        forall|i: int|
            0 <= i < actions(state, events).len() ==> (#[trigger] actions(state, events)[i]
                matches Action::Store { text, .. } ==> state.pending() == Some(text)),
        forall|i: int, j: int|
            0 <= i < j < actions(state, events).len() ==> !(actions(state, events)[i] is Store
                && actions(state, events)[j] is Store),
    decreases events.len(),
{
    if events.len() > 0 && state.awaits(events[0]) {
        let next = state.transition(events[0]).0;
        let rest = events.drop_first();
        lemma_stores_the_password_once(next, rest);
        let all = actions(state, events);
        let tail = actions(next, rest);
        assert forall|i: int| 0 < i < all.len() implies all[i] == tail[i - 1] by {}
    }
}

/// The password is reported as copied only after the clipboard has taken it.
pub proof fn lemma_copied_means_stored(state: State, events: Seq<Event>, n: int)
    requires
        0 <= n < actions(state, events).len(),
        actions(state, events)[n] matches Action::Finish { outcome: Ok(Outcome::Copied) },
    ensures
        n < events.len(),
        events[n] matches Event::Stored(Ok(_)),
        (n == 0 && state is Storing) || (n > 0 && actions(state, events)[n - 1] is Store),
    decreases events.len(),
{
    let next = state.transition(events[0]).0;
    let rest = events.drop_first();
    let all = actions(state, events);
    let tail = actions(next, rest);
    assert forall|i: int| 0 < i < all.len() implies all[i] == tail[i - 1] by {}
    if n > 0 {
        lemma_copied_means_stored(next, rest, n - 1);
        assert(events[n] == rest[n - 1]);
    }
}

/// Starts storing `value` in the clipboard, in the process that asks.
///
/// The clipboard is initialized, then `value` is stored as it is. Where the
/// clipboard is transient, the store returns only when the clipboard's
/// contents have been replaced by something else.
pub fn store(value: String, platform: Platform) -> (first: (State, Action))
    ensures
        first == (
            State::Opening { password: value, wait: platform is Transient },
            Action::OpenClipboard,
        ),
{
    let wait = match platform {
        Platform::Persistent => false,
        Platform::Transient => true,
    };
    (State::Opening { password: value, wait }, Action::OpenClipboard)
}

/// Starts the delivery of `password`.
///
/// Without `copy` the password is printed, followed by a line feed. With
/// `copy` it goes to the clipboard as it is: directly where the clipboard
/// keeps its contents, and through a forked process that holds them where
/// it does not.
pub fn begin(password: String, copy: bool, platform: Platform) -> (first: (State, Action))
    ensures
        !copy ==> first.0 is Printing && (first.1 matches Action::Print { line } && line@
            == password@.push('\n')),
        copy && platform is Persistent ==> first == (
            State::Opening { password, wait: false },
            Action::OpenClipboard,
        ),
        copy && platform is Transient ==> first == (State::Forking { password }, Action::Fork),
{
    if !copy {
        let mut line = password;
        line.push('\n');
        (State::Printing, Action::Print { line })
    } else {
        match platform {
            Platform::Persistent => store(password, platform),
            Platform::Transient => (State::Forking { password }, Action::Fork),
        }
    }
}

} // verus!
