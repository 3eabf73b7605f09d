//! The listener: from what happened to what to do next.
//!
//! The worker performs one [`Action`] at a time and reports what came of it as
//! an [`Input`]; [`Listener::step`] decides on the next action.

use crate::error::InputError;
use crate::event::HotkeyEvent;
use crate::grab::{is_conflict, is_grab_conflict};
use vstd::prelude::*;
use x11rb::errors::ReplyError;

verus! {

/// How long a release must last to count: 50 ms. Key repeat shows as a release
/// with a press right behind it.
pub const RELEASE_GRACE_NANOS: u128 = 50_000_000;

/// How soon after a release a press counts as a second tap: 300 ms.
pub const DOUBLE_TAP_WINDOW_NANOS: u128 = 300_000_000;

/// Where the worker's loop goes on once the current exchange is over.
#[derive(Clone, Copy, Debug, Eq, PartialEq, Structural)]
pub enum Resume {
    /// At the top of the loop.
    Top,
    /// At the poll for the next X event.
    Poll,
}

/// What the listener is waiting for.
#[derive(Clone, Copy, Debug, Eq, PartialEq, Structural)]
pub enum Phase {
    /// The stop flag and the clock.
    Top,
    /// The next X event.
    Poll,
    /// The end of the Escape grab; a finished recording is announced after it.
    EscapeRelease { finish: bool, resume: Resume },
    /// The Escape grab; the start of a recording is announced after it.
    EscapeGrab,
    /// The delivery of an event.
    Delivery { event: HotkeyEvent, resume: Resume },
    /// Nothing: the loop was left in good order.
    Stopped,
    /// Nothing: the loop was left with an error.
    Failed,
}

/// What the worker does next.
#[derive(Debug)]
pub enum Action {
    /// Look at the stop flag and, unless it is set, at the clock.
    CheckStop,
    /// Poll for an X event.
    PollEvent,
    /// Grab Escape with any modifiers.
    GrabEscape,
    /// Give up the Escape grab.
    ReleaseEscape,
    /// Send an event to the recorder.
    Emit(HotkeyEvent),
    /// Give up the trigger grabs, and the Escape grab where it is held, and end.
    CleanUp { escape: bool },
    /// End with an error.
    Fail(Failure),
}

/// Why the listener ends with an error.
#[derive(Debug)]
pub enum Failure {
    /// The worker could not talk to the server.
    Connection,
    /// The server refused the Escape grab for another reason than a conflict.
    EscapeGrab(ReplyError),
    /// The event could not be delivered.
    Delivery(InputError),
}

/// What happened. Times are nanoseconds on one clock.
#[derive(Debug)]
pub enum Input {
    /// The stop flag is set.
    Stop,
    /// It is not. The clock was read to look for an overdue release, and once
    /// more to note when the trigger was let go.
    Tick { checked_at: u128, noted_at: u128 },
    /// A key went down.
    KeyPress { code: u8, at: u128 },
    /// A key went up.
    KeyRelease { code: u8, at: u128 },
    /// No event, or one that is about no key.
    NoKey,
    /// Escape is grabbed.
    EscapeGrabbed,
    /// The server refused to grab Escape.
    EscapeRefused(ReplyError),
    /// Escape is no longer grabbed.
    EscapeReleased,
    /// What became of the event that was to be sent.
    Delivered(Result<bool, InputError>),
    /// The exchange with the server failed.
    ConnectionFailed,
}

/// What the trigger key has led to so far.
pub enum Mode {
    /// Nothing is being recorded; the last recording may invite a second tap.
    Idle { last_release: Option<u128> },
    /// The trigger is held, or was let go too recently to count.
    Held { second_tap: bool, pending_release: Option<u128> },
    /// Recording goes on without the trigger.
    Locked,
    /// The recording is over and a key of it may still be down.
    Draining,
}

/// The keys that the listener reacts to, and whether two taps lock.
pub struct Config {
    pub trigger: u8,
    pub escape: u8,
    pub double_tap_enabled: bool,
}

/// The listener as its contracts see it.
pub struct State {
    pub mode: Mode,
    pub escape_grabbed: bool,
    pub phase: Phase,
}

/// The time from `since` to `now`, never negative.
pub open spec fn elapsed(since: u128, now: u128) -> int {
    if since <= now {
        now - since
    } else {
        0
    }
}

/// Where a listener begins.
pub open spec fn initial() -> State {
    State { mode: Mode::Idle { last_release: None }, escape_grabbed: false, phase: Phase::Top }
}

pub open spec fn resumed(resume: Resume) -> Phase {
    match resume {
        Resume::Top => Phase::Top,
        Resume::Poll => Phase::Poll,
    }
}

/// Escape is not grabbed, or no longer: announce the end of the recording if
/// there is one to announce, and go on.
pub open spec fn without_escape(mode: Mode, finish: bool, resume: Resume) -> State {
    State {
        mode,
        escape_grabbed: false,
        phase: if finish {
            Phase::Delivery { event: HotkeyEvent::Finish, resume }
        } else {
            resumed(resume)
        },
    }
}

/// Give up the Escape grab, where it is held, and then go on as
/// [`without_escape`] says.
pub open spec fn releasing_escape(
    mode: Mode,
    escape_grabbed: bool,
    finish: bool,
    resume: Resume,
) -> State {
    if escape_grabbed {
        State { mode, escape_grabbed, phase: Phase::EscapeRelease { finish, resume } }
    } else {
        without_escape(mode, finish, resume)
    }
}

/// The clock moved on: a release that outlasted the grace period takes effect.
pub open spec fn after_tick(c: Config, s: State, checked_at: u128, noted_at: u128) -> State {
    match s.mode {
        Mode::Held { second_tap, pending_release: Some(released_at) } if elapsed(
            released_at,
            checked_at,
        ) >= RELEASE_GRACE_NANOS => {
            if second_tap {
                State { mode: Mode::Locked, phase: Phase::Poll, ..s }
            } else {
                let last_release = if c.double_tap_enabled {
                    Some(noted_at)
                } else {
                    None
                };
                releasing_escape(Mode::Idle { last_release }, s.escape_grabbed, true, Resume::Poll)
            }
        },
        _ => State { phase: Phase::Poll, ..s },
    }
}

/// The trigger went down.
pub open spec fn after_trigger_press(s: State, at: u128) -> State {
    match s.mode {
        Mode::Idle { last_release } => {
            let second_tap = last_release matches Some(released_at) && elapsed(released_at, at)
                < DOUBLE_TAP_WINDOW_NANOS;
            State {
                mode: Mode::Held { second_tap, pending_release: None },
                phase: Phase::EscapeGrab,
                ..s
            }
        },
        Mode::Held { second_tap, pending_release: _ } => State {
            mode: Mode::Held { second_tap, pending_release: None },
            phase: Phase::Top,
            ..s
        },
        Mode::Locked => releasing_escape(Mode::Draining, s.escape_grabbed, true, Resume::Top),
        Mode::Draining => State { phase: Phase::Top, ..s },
    }
}

/// The trigger went up.
pub open spec fn after_trigger_release(s: State, at: u128) -> State {
    let mode = match s.mode {
        Mode::Held { second_tap, pending_release: _ } => Mode::Held {
            second_tap,
            pending_release: Some(at),
        },
        Mode::Draining => Mode::Idle { last_release: None },
        other => other,
    };
    State { mode, phase: Phase::Top, ..s }
}

/// Escape, which is not the trigger, went down.
pub open spec fn after_escape_press(s: State) -> State {
    if s.mode is Held || s.mode is Locked {
        State {
            mode: Mode::Draining,
            phase: Phase::Delivery { event: HotkeyEvent::Cancel, resume: Resume::Top },
            ..s
        }
    } else {
        State { phase: Phase::Top, ..s }
    }
}

/// Escape, which is not the trigger, went up.
pub open spec fn after_escape_release(s: State) -> State {
    if s.mode is Draining {
        releasing_escape(Mode::Idle { last_release: None }, s.escape_grabbed, false, Resume::Top)
    } else {
        State { phase: Phase::Top, ..s }
    }
}

/// Whether an input can answer what the listener asked for.
pub open spec fn accepted(phase: Phase, input: Input) -> bool {
    match phase {
        Phase::Top => input is Stop || input is Tick,
        Phase::Poll => input is KeyPress || input is KeyRelease || input is NoKey
            || input is ConnectionFailed,
        Phase::EscapeRelease { .. } => input is EscapeReleased || input is ConnectionFailed,
        Phase::EscapeGrab => input is EscapeGrabbed || input is EscapeRefused
            || input is ConnectionFailed,
        Phase::Delivery { .. } => input is Delivered,
        Phase::Stopped => false,
        Phase::Failed => false,
    }
}

/// The state that an accepted input leads to.
pub open spec fn next(c: Config, s: State, input: Input) -> State {
    match input {
        Input::Stop => State { phase: Phase::Stopped, ..s },
        Input::Tick { checked_at, noted_at } => after_tick(c, s, checked_at, noted_at),
        Input::KeyPress { code, at } => if code == c.trigger {
            after_trigger_press(s, at)
        } else if code == c.escape {
            after_escape_press(s)
        } else {
            State { phase: Phase::Top, ..s }
        },
        Input::KeyRelease { code, at } => if code == c.trigger {
            after_trigger_release(s, at)
        } else if code == c.escape {
            after_escape_release(s)
        } else {
            State { phase: Phase::Top, ..s }
        },
        Input::NoKey => State { phase: Phase::Top, ..s },
        Input::EscapeGrabbed => State {
            escape_grabbed: true,
            phase: Phase::Delivery { event: HotkeyEvent::Start, resume: Resume::Top },
            ..s
        },
        Input::EscapeRefused(error) => if is_conflict(error) {
            State {
                phase: Phase::Delivery { event: HotkeyEvent::Start, resume: Resume::Top },
                ..s
            }
        } else {
            State { phase: Phase::Failed, ..s }
        },
        Input::EscapeReleased => match s.phase {
            Phase::EscapeRelease { finish, resume } => without_escape(s.mode, finish, resume),
            _ => s,
        },
        Input::Delivered(outcome) => match (s.phase, outcome) {
            (Phase::Delivery { resume, .. }, Ok(true)) => State { phase: resumed(resume), ..s },
            (_, Ok(_)) => State { phase: Phase::Stopped, ..s },
            (_, Err(_)) => State { phase: Phase::Failed, ..s },
        },
        Input::ConnectionFailed => State { phase: Phase::Failed, ..s },
    }
}

/// The error that an input brings.
pub open spec fn failure_of(input: Input) -> Failure {
    match input {
        Input::EscapeRefused(error) => Failure::EscapeGrab(error),
        Input::Delivered(Err(error)) => Failure::Delivery(error),
        _ => Failure::Connection,
    }
}

/// The action that a state asks for, `input` being what led to it.
pub open spec fn action_for(s: State, input: Input) -> Action {
    match s.phase {
        Phase::Top => Action::CheckStop,
        Phase::Poll => Action::PollEvent,
        Phase::EscapeRelease { .. } => Action::ReleaseEscape,
        Phase::EscapeGrab => Action::GrabEscape,
        Phase::Delivery { event, .. } => Action::Emit(event),
        Phase::Stopped => Action::CleanUp { escape: s.escape_grabbed },
        Phase::Failed => Action::Fail(failure_of(input)),
    }
}

/// The state of a running listener.
#[derive(Debug)]
pub struct Listener {
    trigger: u8,
    escape: u8,
    double_tap_enabled: bool,
    active: bool,
    second_tap: bool,
    locked: bool,
    dirty: bool,
    last_release: Option<u128>,
    escape_grabbed: bool,
    pending_release: Option<u128>,
    phase: Phase,
}

impl View for Listener {
    type V = State;

    closed spec fn view(&self) -> State {
        State {
            mode: if self.active {
                Mode::Held {
                    second_tap: self.second_tap,
                    pending_release: self.pending_release,
                }
            } else if self.locked {
                Mode::Locked
            } else if self.dirty {
                Mode::Draining
            } else {
                Mode::Idle { last_release: self.last_release }
            },
            escape_grabbed: self.escape_grabbed,
            phase: self.phase,
        }
    }
}

impl Listener {
    pub closed spec fn config(&self) -> Config {
        Config {
            trigger: self.trigger,
            escape: self.escape,
            double_tap_enabled: self.double_tap_enabled,
        }
    }

    /// The flags describe one mode: at most one of `active`, `locked` and
    /// `dirty` is set, a second tap and a pending release belong to an active
    /// trigger, and a release is remembered only while nothing goes on.
    pub closed spec fn well_formed(&self) -> bool {
        &&& self.active ==> !self.locked && !self.dirty
        &&& self.locked ==> !self.dirty
        &&& self.second_tap ==> self.active
        &&& self.pending_release is Some ==> self.active
        &&& self.last_release is Some ==> !self.active && !self.locked && !self.dirty
    }

    /// A listener at the top of its loop: the first action is
    /// [`Action::CheckStop`].
    pub fn new(trigger: u8, escape: u8, double_tap_enabled: bool) -> (listener: Listener)
        ensures
            listener.well_formed(),
            listener@ == initial(),
            listener.config() == (Config { trigger, escape, double_tap_enabled }),
    {
        Listener {
            trigger,
            escape,
            double_tap_enabled,
            active: false,
            second_tap: false,
            locked: false,
            dirty: false,
            last_release: None,
            escape_grabbed: false,
            pending_release: None,
            phase: Phase::Top,
        }
    }

    /// Whether an input answers the action that the listener last asked for.
    pub fn accepts(&self, input: &Input) -> (yes: bool)
        ensures
            yes == accepted(self@.phase, *input),
    {
        match self.phase {
            Phase::Top => matches!(input, Input::Stop | Input::Tick { .. }),
            Phase::Poll => matches!(
                input,
                Input::KeyPress { .. } | Input::KeyRelease { .. } | Input::NoKey
                    | Input::ConnectionFailed
            ),
            Phase::EscapeRelease { .. } => matches!(
                input,
                Input::EscapeReleased | Input::ConnectionFailed
            ),
            Phase::EscapeGrab => matches!(
                input,
                Input::EscapeGrabbed | Input::EscapeRefused(_) | Input::ConnectionFailed
            ),
            Phase::Delivery { .. } => matches!(input, Input::Delivered(_)),
            Phase::Stopped | Phase::Failed => false,
        }
    }

    /// Takes in what came of the last action, and says what to do next.
    pub fn step(&mut self, input: Input) -> (action: Action)
        requires
            old(self).well_formed(),
            accepted(old(self)@.phase, input),
        ensures
            final(self).well_formed(),
            final(self).config() == old(self).config(),
            final(self)@ == next(old(self).config(), old(self)@, input),
            action == action_for(final(self)@, input),
    {
        match input {
            Input::Stop => {
                self.phase = Phase::Stopped;
            },
            Input::Tick { checked_at, noted_at } => self.tick(checked_at, noted_at),
            Input::KeyPress { code, at } => self.key_press(code, at),
            Input::KeyRelease { code, at } => self.key_release(code, at),
            Input::NoKey => {
                self.phase = Phase::Top;
            },
            Input::EscapeGrabbed => {
                self.escape_grabbed = true;
                self.emit(HotkeyEvent::Start, Resume::Top);
            },
            // Escape-cancel is best-effort: another X11 client (e.g. the window
            // manager) may already hold it. A conflict degrades to
            // hold-to-dictate without Escape-cancel and never ends the listener.
            Input::EscapeRefused(error) => {
                if !is_grab_conflict(&error) {
                    self.phase = Phase::Failed;
                    return Action::Fail(Failure::EscapeGrab(error));
                }
                self.emit(HotkeyEvent::Start, Resume::Top);
            },
            Input::EscapeReleased => {
                if let Phase::EscapeRelease { finish, resume } = self.phase {
                    self.escape_grabbed = false;
                    self.after_escape(finish, resume);
                }
            },
            Input::Delivered(outcome) => match outcome {
                Ok(true) => {
                    if let Phase::Delivery { event: _, resume } = self.phase {
                        self.resume(resume);
                    }
                },
                Ok(false) => {
                    self.phase = Phase::Stopped;
                },
                Err(error) => {
                    self.phase = Phase::Failed;
                    return Action::Fail(Failure::Delivery(error));
                },
            },
            Input::ConnectionFailed => {
                self.phase = Phase::Failed;
            },
        }
        self.action()
    }

    fn action(&self) -> (action: Action)
        ensures
            action == action_for(self@, Input::ConnectionFailed),
    {
        match self.phase {
            Phase::Top => Action::CheckStop,
            Phase::Poll => Action::PollEvent,
            Phase::EscapeRelease { .. } => Action::ReleaseEscape,
            Phase::EscapeGrab => Action::GrabEscape,
            Phase::Delivery { event, resume: _ } => Action::Emit(event),
            Phase::Stopped => Action::CleanUp { escape: self.escape_grabbed },
            Phase::Failed => Action::Fail(Failure::Connection),
        }
    }

    fn resume(&mut self, resume: Resume)
        ensures
            *final(self) == (Listener { phase: resumed(resume), ..*old(self) }),
    {
        self.phase = match resume {
            Resume::Top => Phase::Top,
            Resume::Poll => Phase::Poll,
        };
    }

    fn emit(&mut self, event: HotkeyEvent, resume: Resume)
        ensures
            *final(self) == (Listener {
                phase: Phase::Delivery { event, resume },
                ..*old(self)
            }),
    {
        self.phase = Phase::Delivery { event, resume };
    }

    fn after_escape(&mut self, finish: bool, resume: Resume)
        requires
            !old(self).escape_grabbed,
        ensures
            *final(self) == (Listener {
                phase: without_escape(old(self)@.mode, finish, resume).phase,
                ..*old(self)
            }),
    {
        if finish {
            self.emit(HotkeyEvent::Finish, resume);
        } else {
            self.resume(resume);
        }
    }

    /// Asks for the end of the Escape grab, where it is held.
    fn release_escape(&mut self, finish: bool, resume: Resume)
        ensures
            *final(self) == (Listener {
                phase: releasing_escape(
                    old(self)@.mode,
                    old(self).escape_grabbed,
                    finish,
                    resume,
                ).phase,
                ..*old(self)
            }),
    {
        if self.escape_grabbed {
            self.phase = Phase::EscapeRelease { finish, resume };
        } else {
            self.after_escape(finish, resume);
        }
    }

    fn tick(&mut self, checked_at: u128, noted_at: u128)
        requires
            old(self).well_formed(),
        ensures
            final(self).well_formed(),
            final(self).config() == old(self).config(),
            final(self)@ == after_tick(old(self).config(), old(self)@, checked_at, noted_at),
    {
        self.phase = Phase::Poll;
        if let Some(released_at) = self.pending_release {
            if checked_at.saturating_sub(released_at) >= RELEASE_GRACE_NANOS {
                self.pending_release = None;
                self.active = false;
                if self.second_tap {
                    self.second_tap = false;
                    self.locked = true;
                    self.last_release = None;
                } else {
                    self.last_release = if self.double_tap_enabled {
                        Some(noted_at)
                    } else {
                        None
                    };
                    self.release_escape(true, Resume::Poll);
                }
            }
        }
    }

    fn key_press(&mut self, code: u8, at: u128)
        requires
            old(self).well_formed(),
        ensures
            final(self).well_formed(),
            final(self).config() == old(self).config(),
            final(self)@ == next(old(self).config(), old(self)@, Input::KeyPress { code, at }),
    {
        self.phase = Phase::Top;
        if code == self.trigger {
            if self.pending_release.take().is_some() {
                return ;
            }
            if self.locked {
                self.locked = false;
                self.dirty = true;
                self.release_escape(true, Resume::Top);
            } else if !self.active && !self.dirty {
                self.active = true;
                self.second_tap = match self.last_release.take() {
                    Some(released_at) => at.saturating_sub(released_at) < DOUBLE_TAP_WINDOW_NANOS,
                    None => false,
                };
                self.phase = Phase::EscapeGrab;
            }
        } else if code == self.escape && (self.active || self.locked) {
            self.pending_release = None;
            self.active = false;
            self.locked = false;
            self.dirty = true;
            self.second_tap = false;
            self.last_release = None;
            self.emit(HotkeyEvent::Cancel, Resume::Top);
        }
    }

    fn key_release(&mut self, code: u8, at: u128)
        requires
            old(self).well_formed(),
        ensures
            final(self).well_formed(),
            final(self).config() == old(self).config(),
            final(self)@ == next(old(self).config(), old(self)@, Input::KeyRelease { code, at }),
    {
        self.phase = Phase::Top;
        if code == self.trigger && self.active {
            self.pending_release = Some(at);
        } else if code == self.trigger && self.dirty {
            self.dirty = false;
        } else if code == self.escape && self.dirty {
            self.dirty = false;
            self.release_escape(false, Resume::Top);
        }
    }
}

} // verus!
