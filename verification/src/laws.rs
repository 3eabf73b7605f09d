//! What holds of every run of the listener, whatever is pressed when.

use crate::event::HotkeyEvent;
use crate::grab::is_conflict;
use crate::listener::{
    accepted, action_for, initial, next, releasing_escape, Action, Config, Failure, Input, Mode,
    Phase, Resume, State,
};
use crate::runs::{answered, emitted, ended, run};
use vstd::prelude::*;

verus! {

/// What is true of every state that a listener gets into: an exchange about
/// Escape or an event goes with the mode that called for it, Escape is free
/// whenever a finished recording is announced, and only double tapping locks.
pub open spec fn valid(c: Config, s: State) -> bool {
    &&& match s.phase {
        Phase::EscapeGrab => s.mode matches Mode::Held { pending_release: None, .. },
        Phase::EscapeRelease { finish, .. } => {
            &&& s.escape_grabbed
            &&& s.mode is Idle || s.mode is Draining
        },
        Phase::Delivery { event: HotkeyEvent::Start, .. } =>
            s.mode matches Mode::Held { pending_release: None, .. },
        Phase::Delivery { event: HotkeyEvent::Finish, .. } => {
            &&& !s.escape_grabbed
            &&& s.mode is Idle || s.mode is Draining
        },
        Phase::Delivery { event: HotkeyEvent::Cancel, .. } => s.mode is Draining,
        _ => true,
    }
    &&& !c.double_tap_enabled ==> match s.mode {
        Mode::Idle { last_release } => last_release is None,
        Mode::Held { second_tap, .. } => !second_tap,
        Mode::Locked => false,
        Mode::Draining => true,
    }
}

/// Whether a start has been announced and its end has not.
pub open spec fn recording(s: State) -> bool {
    match s.phase {
        Phase::EscapeGrab => false,
        Phase::EscapeRelease { finish, .. } => finish,
        _ => s.mode is Held || s.mode is Locked,
    }
}

/// Events at even places are starts, those at odd places end the recording
/// that was started before them.
pub open spec fn alternating(events: Seq<HotkeyEvent>) -> bool {
    forall|i: int|
        0 <= i < events.len() ==> (#[trigger] events[i] == HotkeyEvent::Start <==> i % 2 == 0)
}

/// An input that reports neither the wish to stop nor a failure, where a
/// conflict over Escape is no failure.
pub open spec fn benign(input: Input) -> bool {
    match input {
        Input::Stop => false,
        Input::ConnectionFailed => false,
        Input::EscapeRefused(error) => is_conflict(error),
        Input::Delivered(outcome) => outcome matches Ok(true),
        _ => true,
    }
}

/// A listener begins in a valid state.
pub proof fn law_initial_state_is_valid(c: Config)
    ensures
        valid(c, initial()),
        !recording(initial()),
{
}

/// Every step leads from a valid state to a valid one.
pub proof fn law_steps_keep_states_valid(c: Config, s: State, input: Input)
    requires
        valid(c, s),
        accepted(s.phase, input),
    ensures
        valid(c, next(c, s, input)),
{
}

/// Every state of every run is valid.
pub proof fn law_runs_keep_states_valid(c: Config, s: State, inputs: Seq<Input>)
    requires
        valid(c, s),
        answered(c, s, inputs),
    ensures
        valid(c, run(c, s, inputs)),
    decreases inputs.len(),
{
    if inputs.len() > 0 {
        law_runs_keep_states_valid(c, s, inputs.drop_last());
        law_steps_keep_states_valid(c, run(c, s, inputs.drop_last()), inputs.last());
    }
}

/// An emitted event is the start of a recording when none goes on, and ends
/// the one that goes on otherwise; without an event nothing begins or ends.
pub proof fn law_events_follow_recordings(c: Config, s: State, input: Input)
    requires
        valid(c, s),
        accepted(s.phase, input),
    ensures
        match action_for(next(c, s, input), input) {
            Action::Emit(event) => {
                &&& (event == HotkeyEvent::Start <==> !recording(s))
                &&& recording(next(c, s, input)) == !recording(s)
            },
            _ => ended(next(c, s, input)) || recording(next(c, s, input)) == recording(s),
        },
{
}

/// Over a whole run of a listener, each start is followed by exactly one
/// finish or cancel before the next start.
pub proof fn law_starts_and_ends_alternate(c: Config, inputs: Seq<Input>)
    requires
        answered(c, initial(), inputs),
    ensures
        alternating(emitted(c, initial(), inputs)),
        !ended(run(c, initial(), inputs)) ==> (recording(run(c, initial(), inputs)) <==> emitted(
            c,
            initial(),
            inputs,
        ).len() % 2 == 1),
    decreases inputs.len(),
{
    if inputs.len() > 0 {
        let earlier = inputs.drop_last();
        law_starts_and_ends_alternate(c, earlier);
        law_runs_keep_states_valid(c, initial(), earlier);
        law_events_follow_recordings(c, run(c, initial(), earlier), inputs.last());
    }
}

/// Whenever a finished recording is announced, the listener holds no Escape
/// grab.
pub proof fn law_finish_leaves_escape_free(c: Config, s: State, input: Input)
    requires
        valid(c, s),
        accepted(s.phase, input),
        action_for(next(c, s, input), input) == Action::Emit(HotkeyEvent::Finish),
    ensures
        !next(c, s, input).escape_grabbed,
{
}

/// With double tapping off, no run ever locks.
pub proof fn law_only_double_taps_lock(c: Config, inputs: Seq<Input>)
    requires
        !c.double_tap_enabled,
        answered(c, initial(), inputs),
    ensures
        !(run(c, initial(), inputs).mode is Locked),
{
    law_runs_keep_states_valid(c, initial(), inputs);
}

/// A conflict over Escape starts the recording all the same.
pub proof fn law_conflict_still_starts(c: Config, s: State, input: Input)
    requires
        s.phase is EscapeGrab,
        input matches Input::EscapeRefused(error) && is_conflict(error),
    ensures
        action_for(next(c, s, input), input) == Action::Emit(HotkeyEvent::Start),
        next(c, s, input).mode == s.mode,
        next(c, s, input).escape_grabbed == s.escape_grabbed,
{
}

/// Any other refusal of Escape ends the listener with that error.
pub proof fn law_other_refusals_are_fatal(c: Config, s: State, input: Input)
    requires
        s.phase is EscapeGrab,
        input matches Input::EscapeRefused(error) && !is_conflict(error),
    ensures
        input matches Input::EscapeRefused(error) && action_for(next(c, s, input), input)
            == Action::Fail(Failure::EscapeGrab(error)),
{
}

/// No run without a stop or a failure ends the listener, however often Escape
/// is held by another client.
pub proof fn law_conflicts_never_end_the_listener(c: Config, s: State, inputs: Seq<Input>)
    requires
        !ended(s),
        answered(c, s, inputs),
        forall|i: int| 0 <= i < inputs.len() ==> benign(#[trigger] inputs[i]),
    ensures
        !ended(run(c, s, inputs)),
    decreases inputs.len(),
{
    if inputs.len() > 0 {
        let earlier = inputs.drop_last();
        assert forall|i: int| 0 <= i < earlier.len() implies benign(#[trigger] earlier[i]) by {
            assert(earlier[i] == inputs[i]);
        }
        law_conflicts_never_end_the_listener(c, s, earlier);
        assert(benign(inputs[inputs.len() - 1]));
    }
}

/// Whether an input is about the trigger or Escape going down.
pub open spec fn is_press(c: Config, input: Input) -> bool {
    input matches Input::KeyPress { code, .. } && (code == c.trigger || code == c.escape)
}

/// Whether an input is about the trigger or Escape going up.
pub open spec fn is_release(c: Config, input: Input) -> bool {
    input matches Input::KeyRelease { code, .. } && (code == c.trigger || code == c.escape)
}

/// A locked recording goes on in silence until the trigger or Escape is
/// pressed: time and releases do not end it.
pub proof fn law_locked_until_a_press(c: Config, s: State, inputs: Seq<Input>)
    requires
        s.mode is Locked,
        s.phase is Top || s.phase is Poll,
        answered(c, s, inputs),
        forall|i: int| 0 <= i < inputs.len() ==> !is_press(c, #[trigger] inputs[i]),
    ensures
        run(c, s, inputs).mode is Locked,
        run(c, s, inputs).escape_grabbed == s.escape_grabbed,
        emitted(c, s, inputs) == Seq::<HotkeyEvent>::empty(),
        ended(run(c, s, inputs)) || run(c, s, inputs).phase is Top || run(
            c,
            s,
            inputs,
        ).phase is Poll,
    decreases inputs.len(),
{
    if inputs.len() > 0 {
        let earlier = inputs.drop_last();
        assert forall|i: int| 0 <= i < earlier.len() implies !is_press(
            c,
            #[trigger] earlier[i],
        ) by {
            assert(earlier[i] == inputs[i]);
        }
        law_locked_until_a_press(c, s, earlier);
        assert(!is_press(c, inputs[inputs.len() - 1]));
    }
}

/// After a cancel, or after the press that ends a locked recording, nothing
/// is emitted until the trigger or Escape is let go, whatever is pressed.
pub proof fn law_draining_is_silent(c: Config, s: State, inputs: Seq<Input>)
    requires
        s.mode is Draining,
        s.phase is Top || s.phase is Poll,
        answered(c, s, inputs),
        forall|i: int| 0 <= i < inputs.len() ==> !is_release(c, #[trigger] inputs[i]),
    ensures
        run(c, s, inputs).mode is Draining,
        run(c, s, inputs).escape_grabbed == s.escape_grabbed,
        emitted(c, s, inputs) == Seq::<HotkeyEvent>::empty(),
        ended(run(c, s, inputs)) || run(c, s, inputs).phase is Top || run(
            c,
            s,
            inputs,
        ).phase is Poll,
    decreases inputs.len(),
{
    if inputs.len() > 0 {
        let earlier = inputs.drop_last();
        assert forall|i: int| 0 <= i < earlier.len() implies !is_release(
            c,
            #[trigger] earlier[i],
        ) by {
            assert(earlier[i] == inputs[i]);
        }
        law_draining_is_silent(c, s, earlier);
        assert(!is_release(c, inputs[inputs.len() - 1]));
    }
}

/// A stop, or a receiver that is gone, makes the worker give the Escape grab
/// back exactly where it is held.
pub proof fn law_leaving_gives_escape_back(c: Config, s: State, input: Input)
    requires
        accepted(s.phase, input),
        input is Stop || (input matches Input::Delivered(outcome) && outcome matches Ok(false)),
    ensures
        action_for(next(c, s, input), input) == (Action::CleanUp { escape: s.escape_grabbed }),
{
}

/// Giving Escape back a second time asks for nothing: once the first request
/// is through, or was not called for, the grab is gone, and another try goes
/// on without a request whatever the occasion.
pub proof fn law_escape_is_given_back_once(
    c: Config,
    mode: Mode,
    escape_grabbed: bool,
    finish: bool,
    resume: Resume,
    mode_again: Mode,
    finish_again: bool,
    resume_again: Resume,
)
    ensures
        ({
            let asked = releasing_escape(mode, escape_grabbed, finish, resume);
            let given_back = if asked.phase is EscapeRelease {
                next(c, asked, Input::EscapeReleased)
            } else {
                asked
            };
            let again = releasing_escape(
                mode_again,
                given_back.escape_grabbed,
                finish_again,
                resume_again,
            );
            &&& asked.phase is EscapeRelease <==> escape_grabbed
            &&& !given_back.escape_grabbed
            &&& !(again.phase is EscapeRelease)
            &&& !again.escape_grabbed
        }),
{
}

/// As long as Escape is not grabbed, no run asks to give it back.
pub proof fn law_only_a_held_escape_is_given_back(c: Config, s: State, inputs: Seq<Input>)
    requires
        !s.escape_grabbed,
        !(s.phase is EscapeRelease),
        answered(c, s, inputs),
        forall|i: int| 0 <= i < inputs.len() ==> !(#[trigger] inputs[i] is EscapeGrabbed),
    ensures
        !run(c, s, inputs).escape_grabbed,
        !(run(c, s, inputs).phase is EscapeRelease),
    decreases inputs.len(),
{
    if inputs.len() > 0 {
        let earlier = inputs.drop_last();
        assert forall|i: int| 0 <= i < earlier.len() implies !(
        #[trigger] earlier[i] is EscapeGrabbed) by {
            assert(earlier[i] == inputs[i]);
        }
        law_only_a_held_escape_is_given_back(c, s, earlier);
        assert(!(inputs[inputs.len() - 1] is EscapeGrabbed));
    }
}

} // verus!
