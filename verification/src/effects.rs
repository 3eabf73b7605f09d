//! What one input does, on the clock readings, keys and flags themselves.
//!
//! Every law is over all states and inputs of its kind, and together they say
//! of each input what it changes, what it leaves alone and what the worker is
//! asked to do.

use crate::event::HotkeyEvent;
use crate::listener::{
    accepted, action_for, elapsed, initial, next, Action, Config, Failure, Input, Listener, Mode,
    Phase, Resume, State, DOUBLE_TAP_WINDOW_NANOS, RELEASE_GRACE_NANOS,
};
use vstd::prelude::*;
use x11rb::errors::ReplyError;
use x11rb::protocol::ErrorKind;

verus! {

/// The action that an input leads to.
pub open spec fn answer(c: Config, s: State, input: Input) -> Action {
    action_for(next(c, s, input), input)
}

/// The state after `s` has moved on and nothing else has changed.
pub open spec fn moved(s: State, phase: Phase) -> State {
    State { mode: s.mode, escape_grabbed: s.escape_grabbed, phase }
}

/// A listener begins with nothing recorded, nothing remembered, Escape free,
/// and at the top of the loop.
pub proof fn law_a_listener_begins_idle()
    ensures
        initial().mode == (Mode::Idle { last_release: None }),
        !initial().escape_grabbed,
        initial().phase == Phase::Top,
        forall|input: Input|
            accepted(initial().phase, input) <==> #[trigger] is_stop_or_tick(input),
{
}

pub open spec fn is_stop_or_tick(input: Input) -> bool {
    input is Stop || input is Tick
}

/// A new listener is ready to be driven, watches the two keys that it was given
/// and minds double taps where it was told to.
pub proof fn law_a_listener_watches_its_keys(
    trigger: u8,
    escape: u8,
    double_tap_enabled: bool,
    listener: Listener,
)
    requires
        call_ensures(Listener::new, (trigger, escape, double_tap_enabled), listener),
    ensures
        listener.well_formed(),
        listener.config().trigger == trigger,
        listener.config().escape == escape,
        listener.config().double_tap_enabled == double_tap_enabled,
        listener@.mode == (Mode::Idle { last_release: None }),
        !listener@.escape_grabbed,
        listener@.phase == Phase::Top,
{
}

/// Every action can be answered by each thing that may come of it, and by
/// nothing else; an ended listener takes no answer.
pub proof fn law_actions_can_be_answered(s: State, led_here: Input, input: Input)
    ensures
        match action_for(s, led_here) {
            Action::CheckStop => accepted(s.phase, input) == is_stop_or_tick(input),
            Action::PollEvent => accepted(s.phase, input) == (input is KeyPress
                || input is KeyRelease || input is NoKey || input is ConnectionFailed),
            Action::GrabEscape => accepted(s.phase, input) == (input is EscapeGrabbed
                || input is EscapeRefused || input is ConnectionFailed),
            Action::ReleaseEscape => accepted(s.phase, input) == (input is EscapeReleased
                || input is ConnectionFailed),
            Action::Emit(_) => accepted(s.phase, input) == (input is Delivered),
            Action::CleanUp { .. } => !accepted(s.phase, input),
            Action::Fail(_) => !accepted(s.phase, input),
        },
{
}

/// What the worker is asked to do is what the listener waits for.
pub proof fn law_actions_ask_for_what_is_awaited(s: State, led_here: Input)
    ensures
        action_for(s, led_here) is CheckStop <==> s.phase == Phase::Top,
        action_for(s, led_here) is PollEvent <==> s.phase == Phase::Poll,
        action_for(s, led_here) is GrabEscape <==> s.phase == Phase::EscapeGrab,
        action_for(s, led_here) is ReleaseEscape <==> s.phase is EscapeRelease,
        forall|event: HotkeyEvent|
            #![trigger action_for(s, led_here), is_delivery_of(s.phase, event)]
            action_for(s, led_here) == Action::Emit(event) <==> is_delivery_of(s.phase, event),
        action_for(s, led_here) is CleanUp <==> s.phase == Phase::Stopped,
        action_for(s, led_here) matches Action::CleanUp { escape } ==> escape == s.escape_grabbed,
        action_for(s, led_here) is Fail <==> s.phase == Phase::Failed,
{
}

pub open spec fn is_delivery_of(phase: Phase, event: HotkeyEvent) -> bool {
    phase matches Phase::Delivery { event: awaited, .. } && awaited == event
}

/// The time between two readings of the clock is their difference, however long
/// it is, and none where the clock seems to have gone back; the grace period is
/// 50 ms and a double tap takes less than 300 ms.
pub proof fn law_time_is_measured_exactly(since: u128, now: u128)
    ensures
        since <= now ==> since + elapsed(since, now) == now,
        now <= since ==> elapsed(since, now) == 0,
        RELEASE_GRACE_NANOS == 50_000_000,
        DOUBLE_TAP_WINDOW_NANOS == 300_000_000,
{
}

/// A pending release takes effect at the first look at the clock 50 ms or more
/// after it, and not before.
pub proof fn law_release_takes_effect_after_50_ms(
    c: Config,
    s: State,
    released_at: u128,
    checked_at: u128,
    noted_at: u128,
)
    requires
        s.mode matches Mode::Held { pending_release: Some(at), .. } && at == released_at,
    ensures
        ({
            let tick = Input::Tick { checked_at, noted_at };
            let after = next(c, s, tick);
            &&& checked_at >= released_at + 50_000_000 ==> !(after.mode is Held)
            &&& checked_at < released_at + 50_000_000 ==> after == moved(s, Phase::Poll)
        }),
{
}

/// What ended a release at one reading of the clock ends it at every later
/// one, and what did not end it ends it at no earlier one.
pub proof fn law_a_later_look_sees_no_less(
    c: Config,
    s: State,
    earlier: u128,
    later: u128,
    noted_earlier: u128,
    noted_later: u128,
)
    requires
        s.mode is Held,
        earlier <= later,
        !(next(c, s, Input::Tick { checked_at: earlier, noted_at: noted_earlier }).mode is Held),
    ensures
        !(next(c, s, Input::Tick { checked_at: later, noted_at: noted_later }).mode is Held),
{
}

/// A release that takes effect locks a second tap, with Escape as it was; it
/// ends a first tap and is remembered, by the later reading of the clock, where
/// double tapping is on.
pub proof fn law_release_locks_or_ends(
    c: Config,
    s: State,
    released_at: u128,
    checked_at: u128,
    noted_at: u128,
)
    requires
        s.mode matches Mode::Held { pending_release: Some(at), .. } && at == released_at,
        checked_at >= released_at + 50_000_000,
    ensures
        ({
            let tick = Input::Tick { checked_at, noted_at };
            let after = next(c, s, tick);
            let second_tap = s.mode matches Mode::Held { second_tap: true, .. };
            &&& second_tap ==> after == State {
                mode: Mode::Locked,
                escape_grabbed: s.escape_grabbed,
                phase: Phase::Poll,
            }
            &&& !second_tap && c.double_tap_enabled ==> after.mode == (Mode::Idle {
                last_release: Some(noted_at),
            })
            &&& !second_tap && !c.double_tap_enabled ==> after.mode == (Mode::Idle {
                last_release: None,
            })
            &&& !second_tap && s.escape_grabbed ==> answer(c, s, tick) is ReleaseEscape
                && after.escape_grabbed && after.phase == (Phase::EscapeRelease {
                finish: true,
                resume: Resume::Poll,
            })
            &&& !second_tap && !s.escape_grabbed ==> answer(c, s, tick) == Action::Emit(
                HotkeyEvent::Finish,
            ) && !after.escape_grabbed && after.phase == (Phase::Delivery {
                event: HotkeyEvent::Finish,
                resume: Resume::Poll,
            })
        }),
{
}

/// Without a pending release, time changes nothing: whatever the two readings
/// are, the worker goes on to poll.
pub proof fn law_time_alone_changes_nothing(c: Config, s: State, checked_at: u128, noted_at: u128)
    requires
        !(s.mode matches Mode::Held { pending_release: Some(_), .. }),
    ensures
        next(c, s, Input::Tick { checked_at, noted_at }) == moved(s, Phase::Poll),
        answer(c, s, Input::Tick { checked_at, noted_at }) is PollEvent,
{
}

/// Every turn polls: a look at the clock is followed by a poll, directly or,
/// where it ends a recording, once Escape is given back and the event is
/// delivered.
pub proof fn law_every_turn_polls(c: Config, s: State, checked_at: u128, noted_at: u128)
    requires
        s.phase is Top,
    ensures
        ({
            let tick = Input::Tick { checked_at, noted_at };
            let delivered = Input::Delivered(Ok(true));
            let ticked = next(c, s, tick);
            match answer(c, s, tick) {
                Action::PollEvent => true,
                Action::Emit(event) => event == HotkeyEvent::Finish && answer(
                    c,
                    ticked,
                    delivered,
                ) is PollEvent,
                Action::ReleaseEscape => {
                    let released = next(c, ticked, Input::EscapeReleased);
                    &&& answer(c, ticked, Input::EscapeReleased) == Action::Emit(
                        HotkeyEvent::Finish,
                    )
                    &&& answer(c, released, delivered) is PollEvent
                },
                _ => false,
            }
        }),
{
}

/// Every poll leads back to the top of the loop, where the stop flag is looked
/// at: directly or, where a key starts or ends a recording, once the server has
/// answered about Escape and the event is delivered.
pub proof fn law_every_poll_leads_back_to_the_top(c: Config, s: State, input: Input)
    requires
        s.phase is Poll,
        input is KeyPress || input is KeyRelease || input is NoKey,
    ensures
        ({
            let delivered = Input::Delivered(Ok(true));
            let after = next(c, s, input);
            match answer(c, s, input) {
                Action::CheckStop => true,
                Action::Emit(_) => answer(c, after, delivered) is CheckStop,
                Action::GrabEscape => {
                    let grabbed = next(c, after, Input::EscapeGrabbed);
                    &&& answer(c, after, Input::EscapeGrabbed) == Action::Emit(HotkeyEvent::Start)
                    &&& answer(c, grabbed, delivered) is CheckStop
                },
                Action::ReleaseEscape => {
                    let released = next(c, after, Input::EscapeReleased);
                    match answer(c, after, Input::EscapeReleased) {
                        Action::CheckStop => true,
                        Action::Emit(event) => event == HotkeyEvent::Finish && answer(
                            c,
                            released,
                            delivered,
                        ) is CheckStop,
                        _ => false,
                    }
                },
                _ => false,
            }
        }),
{
}

/// Pressing the trigger while nothing goes on asks for Escape, and holds. It is
/// a second tap exactly when a release is remembered and the press comes less
/// than 300 ms after it.
pub proof fn law_a_press_within_300_ms_is_a_second_tap(c: Config, s: State, at: u128)
    requires
        s.mode is Idle,
    ensures
        ({
            let press = Input::KeyPress { code: c.trigger, at };
            let after = next(c, s, press);
            &&& after.mode matches Mode::Held { second_tap, pending_release } && {
                &&& pending_release is None
                &&& match s.mode->last_release {
                    Some(noted_at) => {
                        &&& at >= noted_at + 300_000_000 ==> !second_tap
                        &&& at < noted_at + 300_000_000 ==> second_tap
                    },
                    None => !second_tap,
                }
            }
            &&& after.escape_grabbed == s.escape_grabbed
            &&& answer(c, s, press) is GrabEscape
        }),
{
}

/// A press after a recording has ended is a second tap exactly where double
/// tapping is on and it comes less than 300 ms after the end was noted; nothing
/// that has to be done about the end in between makes a difference.
pub proof fn law_a_tap_after_300_ms_is_a_first_tap(
    c: Config,
    s: State,
    released_at: u128,
    checked_at: u128,
    noted_at: u128,
    at: u128,
)
    requires
        s.mode == (Mode::Held { second_tap: false, pending_release: Some(released_at) }),
        checked_at >= released_at + 50_000_000,
    ensures
        ({
            let ticked = next(c, s, Input::Tick { checked_at, noted_at });
            let freed = if s.escape_grabbed {
                next(c, ticked, Input::EscapeReleased)
            } else {
                ticked
            };
            let finished = next(c, freed, Input::Delivered(Ok(true)));
            let pressed = next(c, finished, Input::KeyPress { code: c.trigger, at });
            &&& finished.phase is Poll
            &&& !finished.escape_grabbed
            &&& pressed.mode == (Mode::Held {
                second_tap: c.double_tap_enabled && at < noted_at + 300_000_000,
                pending_release: None,
            })
        }),
{
}

/// A press that is too late for a second tap stays too late when it comes
/// later.
pub proof fn law_a_later_press_is_no_second_tap(c: Config, s: State, earlier: u128, later: u128)
    requires
        s.mode is Idle,
        earlier <= later,
        next(c, s, Input::KeyPress { code: c.trigger, at: earlier }).mode matches Mode::Held {
            second_tap: false,
            ..
        },
    ensures
        next(c, s, Input::KeyPress { code: c.trigger, at: later }).mode matches Mode::Held {
            second_tap: false,
            ..
        },
{
}

/// Pressing the trigger again while it counts as held undoes a pending
/// release, and does nothing else; which tap it is stays as it was.
pub proof fn law_a_press_undoes_a_pending_release(c: Config, s: State, at: u128)
    requires
        s.mode is Held,
    ensures
        next(c, s, Input::KeyPress { code: c.trigger, at }) == (State {
            mode: Mode::Held { second_tap: s.mode->second_tap, pending_release: None },
            escape_grabbed: s.escape_grabbed,
            phase: Phase::Top,
        }),
{
}

/// Pressing the trigger ends a locked recording: Escape is given back where it
/// is held, and the finish is announced.
pub proof fn law_a_press_ends_a_lock(c: Config, s: State, at: u128)
    requires
        s.mode is Locked,
    ensures
        ({
            let press = Input::KeyPress { code: c.trigger, at };
            let after = next(c, s, press);
            &&& after.mode is Draining
            &&& after.escape_grabbed == s.escape_grabbed
            &&& s.escape_grabbed ==> after.phase == (Phase::EscapeRelease {
                finish: true,
                resume: Resume::Top,
            })
            &&& !s.escape_grabbed ==> after.phase == (Phase::Delivery {
                event: HotkeyEvent::Finish,
                resume: Resume::Top,
            })
        }),
{
}

/// While a recording drains, presses of the trigger and of Escape do nothing.
pub proof fn law_presses_do_nothing_while_draining(c: Config, s: State, code: u8, at: u128)
    requires
        s.mode is Draining,
    ensures
        next(c, s, Input::KeyPress { code, at }) == moved(s, Phase::Top),
{
}

/// Letting the trigger go while it counts as held starts the grace period at
/// that moment, also where one was running; nothing is decided yet.
pub proof fn law_a_release_is_noted_with_its_time(c: Config, s: State, at: u128)
    requires
        s.mode is Held,
    ensures
        next(c, s, Input::KeyRelease { code: c.trigger, at }) == (State {
            mode: Mode::Held { second_tap: s.mode->second_tap, pending_release: Some(at) },
            escape_grabbed: s.escape_grabbed,
            phase: Phase::Top,
        }),
{
}

/// Letting the trigger go ends the draining, with Escape as it was and nothing
/// remembered. While nothing goes on, or while locked, it does nothing.
pub proof fn law_a_release_ends_the_draining(c: Config, s: State, at: u128)
    requires
        !(s.mode is Held),
    ensures
        ({
            let after = next(c, s, Input::KeyRelease { code: c.trigger, at });
            &&& s.mode is Draining ==> after == State {
                mode: Mode::Idle { last_release: None },
                escape_grabbed: s.escape_grabbed,
                phase: Phase::Top,
            }
            &&& !(s.mode is Draining) ==> after == moved(s, Phase::Top)
        }),
{
}

/// Pressing Escape cancels exactly where something is recorded: what was held
/// or locked drains, with the grab as it was.
pub proof fn law_escape_cancels_what_is_recorded(c: Config, s: State, at: u128)
    requires
        c.escape != c.trigger,
    ensures
        ({
            let press = Input::KeyPress { code: c.escape, at };
            let after = next(c, s, press);
            &&& s.mode is Held || s.mode is Locked ==> after == State {
                mode: Mode::Draining,
                escape_grabbed: s.escape_grabbed,
                phase: Phase::Delivery { event: HotkeyEvent::Cancel, resume: Resume::Top },
            }
            &&& s.mode is Idle || s.mode is Draining ==> after == moved(s, Phase::Top)
        }),
{
}

/// Letting Escape go ends the draining and gives the grab back where it is
/// held, without an event; otherwise it does nothing.
pub proof fn law_letting_escape_go_ends_the_draining(c: Config, s: State, at: u128)
    requires
        c.escape != c.trigger,
    ensures
        ({
            let after = next(c, s, Input::KeyRelease { code: c.escape, at });
            &&& s.mode is Draining ==> after.mode == (Mode::Idle { last_release: None })
                && after.escape_grabbed == s.escape_grabbed
            &&& s.mode is Draining && s.escape_grabbed ==> after.phase == (Phase::EscapeRelease {
                finish: false,
                resume: Resume::Top,
            })
            &&& s.mode is Draining && !s.escape_grabbed ==> after.phase == Phase::Top
            &&& !(s.mode is Draining) ==> after == moved(s, Phase::Top)
        }),
{
}

/// A key that is both the trigger and Escape acts as the trigger: what Escape
/// is makes no difference to it.
pub proof fn law_the_trigger_comes_before_escape(c: Config, d: Config, s: State, at: u128)
    requires
        c.trigger == d.trigger,
        c.double_tap_enabled == d.double_tap_enabled,
    ensures
        next(c, s, Input::KeyPress { code: c.trigger, at }) == next(
            d,
            s,
            Input::KeyPress { code: c.trigger, at },
        ),
        next(c, s, Input::KeyRelease { code: c.trigger, at }) == next(
            d,
            s,
            Input::KeyRelease { code: c.trigger, at },
        ),
{
}

/// Any other key, and anything that is no key, does nothing.
pub proof fn law_other_keys_do_nothing(c: Config, s: State, code: u8, at: u128)
    requires
        code != c.trigger,
        code != c.escape,
    ensures
        next(c, s, Input::KeyPress { code, at }) == moved(s, Phase::Top),
        next(c, s, Input::KeyRelease { code, at }) == moved(s, Phase::Top),
        next(c, s, Input::NoKey) == moved(s, Phase::Top),
{
}

/// The answer about the Escape grab decides whether it is held, and nothing
/// about the recording, which starts unless the refusal was no conflict.
pub proof fn law_the_grab_answer_starts_the_recording(c: Config, s: State, error: ReplyError)
    requires
        s.phase is EscapeGrab,
    ensures
        next(c, s, Input::EscapeGrabbed) == (State {
            mode: s.mode,
            escape_grabbed: true,
            phase: Phase::Delivery { event: HotkeyEvent::Start, resume: Resume::Top },
        }),
        (error matches ReplyError::X11Error(packet) && packet.error_kind == ErrorKind::Access)
            ==> next(c, s, Input::EscapeRefused(error)) == moved(
            s,
            Phase::Delivery { event: HotkeyEvent::Start, resume: Resume::Top },
        ),
        !(error matches ReplyError::X11Error(packet) && packet.error_kind == ErrorKind::Access)
            ==> next(c, s, Input::EscapeRefused(error)) == moved(s, Phase::Failed) && answer(
            c,
            s,
            Input::EscapeRefused(error),
        ) == Action::Fail(Failure::EscapeGrab(error)),
{
}

/// Once Escape is given back it is free, the recording is as it was, and the
/// finish is announced exactly where one was due.
pub proof fn law_given_back_escape_is_free(c: Config, s: State, finish: bool, resume: Resume)
    requires
        s.phase == (Phase::EscapeRelease { finish, resume }),
    ensures
        ({
            let after = next(c, s, Input::EscapeReleased);
            &&& after.mode == s.mode
            &&& !after.escape_grabbed
            &&& finish ==> after.phase == (Phase::Delivery { event: HotkeyEvent::Finish, resume })
            &&& !finish && resume is Top ==> after.phase == Phase::Top
            &&& !finish && resume is Poll ==> after.phase == Phase::Poll
        }),
{
}

/// A delivered event changes nothing, and the loop goes on where it was; a
/// receiver that is gone ends it in good order, and a full queue with that
/// error.
pub proof fn law_delivery_goes_on_or_ends(
    c: Config,
    s: State,
    event: HotkeyEvent,
    resume: Resume,
    outcome: Result<bool, crate::error::InputError>,
)
    requires
        s.phase == (Phase::Delivery { event, resume }),
    ensures
        ({
            let input = Input::Delivered(outcome);
            let after = next(c, s, input);
            match outcome {
                Ok(true) => after == moved(
                    s,
                    if resume is Top {
                        Phase::Top
                    } else {
                        Phase::Poll
                    },
                ),
                Ok(false) => after == moved(s, Phase::Stopped) && answer(c, s, input) == (
                Action::CleanUp { escape: s.escape_grabbed }),
                Err(error) => after == moved(s, Phase::Failed) && answer(c, s, input)
                    == Action::Fail(Failure::Delivery(error)),
            }
        }),
{
}

/// A stop ends the loop in good order; a failed exchange ends it with an error.
pub proof fn law_stops_and_failures_end(c: Config, s: State)
    ensures
        next(c, s, Input::Stop) == moved(s, Phase::Stopped),
        answer(c, s, Input::Stop) == (Action::CleanUp { escape: s.escape_grabbed }),
        next(c, s, Input::ConnectionFailed) == moved(s, Phase::Failed),
        answer(c, s, Input::ConnectionFailed) == Action::Fail(Failure::Connection),
{
}

} // verus!
