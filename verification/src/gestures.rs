//! What the gestures of the user lead to.
//!
//! The worker looks at the clock and polls for events all the time. The laws
//! hold whatever number of idle turns, of other keys and of key repeats comes
//! in between.

use crate::event::HotkeyEvent;
use crate::grab::is_conflict;
use crate::laws::{is_press, is_release, law_draining_is_silent, law_locked_until_a_press};
use crate::listener::{initial, next, Config, Input, Mode, Phase, State};
use crate::runs::{answered, emitted, ended, lemma_in_a_row, lemma_one_more, run};
use vstd::prelude::*;

verus! {

/// The answers that let a recording start: Escape is grabbed, or held by
/// another client.
pub open spec fn lets_start(input: Input) -> bool {
    input is EscapeGrabbed || (input matches Input::EscapeRefused(error) && is_conflict(error))
}

/// The answer to the end of the Escape grab, where that is asked for.
pub open spec fn escape_answer(escape_grabbed: bool) -> Seq<Input> {
    if escape_grabbed {
        seq![Input::EscapeReleased]
    } else {
        seq![]
    }
}

/// Whether a press counts as a second tap.
pub open spec fn is_second_tap(mode: Mode, at: u128) -> bool {
    mode matches Mode::Idle { last_release: Some(released_at) } && at < released_at + 300_000_000
}

/// Between two turns of the worker's loop, or in the middle of one.
pub open spec fn at_rest(s: State) -> bool {
    s.phase is Top || s.phase is Poll
}

/// Time passes, and other keys: nothing about the trigger, and Escape is not
/// pressed.
pub open spec fn quiet(c: Config, input: Input) -> bool {
    match input {
        Input::Tick { .. } => true,
        Input::NoKey => true,
        Input::KeyPress { code, .. } => code != c.trigger && code != c.escape,
        Input::KeyRelease { code, .. } => code != c.trigger,
        _ => false,
    }
}

/// Time passes, and keys: the trigger is not pressed.
pub open spec fn calm(c: Config, input: Input) -> bool {
    match input {
        Input::Tick { .. } => true,
        Input::NoKey => true,
        Input::KeyPress { code, .. } => code != c.trigger,
        Input::KeyRelease { .. } => true,
        _ => false,
    }
}

/// A look at the clock finds the release within its grace period.
pub open spec fn in_grace(released_at: u128, input: Input) -> bool {
    input matches Input::Tick { checked_at, .. } ==> checked_at < released_at + 50_000_000
}

/// Whether an input leaves the trigger held: Escape is not pressed, and a look
/// at the clock finds no release that is over its grace period. The trigger
/// itself may go up and down.
pub open spec fn keeps_held(c: Config, mode: Mode, input: Input) -> bool {
    match input {
        Input::Tick { .. } => mode matches Mode::Held { pending_release: Some(released_at), .. }
            ==> in_grace(released_at, input),
        Input::NoKey => true,
        Input::KeyPress { code, .. } => code == c.trigger || code != c.escape,
        Input::KeyRelease { .. } => true,
        _ => false,
    }
}

/// Whether a whole run leaves the trigger held.
pub open spec fn unbroken(c: Config, s: State, inputs: Seq<Input>) -> bool
    decreases inputs.len(),
{
    inputs.len() == 0 || {
        &&& unbroken(c, s, inputs.drop_last())
        &&& keeps_held(c, run(c, s, inputs.drop_last()).mode, inputs.last())
    }
}

pub open spec fn all_quiet(c: Config, inputs: Seq<Input>) -> bool {
    forall|i: int| 0 <= i < inputs.len() ==> quiet(c, #[trigger] inputs[i])
}

pub open spec fn all_calm(c: Config, inputs: Seq<Input>) -> bool {
    forall|i: int| 0 <= i < inputs.len() ==> calm(c, #[trigger] inputs[i])
}

pub open spec fn all_in_grace(released_at: u128, inputs: Seq<Input>) -> bool {
    forall|i: int| 0 <= i < inputs.len() ==> in_grace(released_at, #[trigger] inputs[i])
}

/// While nothing is recorded, time and keys other than a press of the trigger
/// change nothing.
pub proof fn law_idle_goes_on(c: Config, s: State, inputs: Seq<Input>)
    requires
        s.mode is Idle,
        at_rest(s),
        answered(c, s, inputs),
        all_calm(c, inputs),
    ensures
        run(c, s, inputs).mode == s.mode,
        run(c, s, inputs).escape_grabbed == s.escape_grabbed,
        emitted(c, s, inputs) == Seq::<HotkeyEvent>::empty(),
        at_rest(run(c, s, inputs)),
    decreases inputs.len(),
{
    if inputs.len() > 0 {
        let earlier = inputs.drop_last();
        assert forall|i: int| 0 <= i < earlier.len() implies calm(c, #[trigger] earlier[i]) by {
            assert(earlier[i] == inputs[i]);
        }
        law_idle_goes_on(c, s, earlier);
        assert(calm(c, inputs[inputs.len() - 1]));
    }
}

/// While the trigger is held, or within the grace period of its release, time
/// and other keys change nothing.
pub proof fn law_held_goes_on(c: Config, s: State, inputs: Seq<Input>)
    requires
        s.mode is Held,
        at_rest(s),
        answered(c, s, inputs),
        all_quiet(c, inputs),
        s.mode matches Mode::Held { pending_release: Some(released_at), .. } ==> all_in_grace(
            released_at,
            inputs,
        ),
    ensures
        run(c, s, inputs).mode == s.mode,
        run(c, s, inputs).escape_grabbed == s.escape_grabbed,
        emitted(c, s, inputs) == Seq::<HotkeyEvent>::empty(),
        at_rest(run(c, s, inputs)),
    decreases inputs.len(),
{
    if inputs.len() > 0 {
        let earlier = inputs.drop_last();
        let last = inputs[inputs.len() - 1];
        assert forall|i: int| 0 <= i < earlier.len() implies quiet(c, #[trigger] earlier[i]) by {
            assert(earlier[i] == inputs[i]);
        }
        if let Mode::Held { pending_release: Some(released_at), .. } = s.mode {
            assert forall|i: int| 0 <= i < earlier.len() implies in_grace(
                released_at,
                #[trigger] earlier[i],
            ) by {
                assert(earlier[i] == inputs[i]);
            }
            assert(in_grace(released_at, last));
        }
        law_held_goes_on(c, s, earlier);
        assert(quiet(c, last));
    }
}

/// Key repeat is invisible: however often the trigger goes up and down within
/// the grace period, and whatever idle turns and other keys come in between,
/// the trigger counts as held, nothing is emitted, and a press undoes the
/// release before it.
pub proof fn law_key_repeat_is_invisible(c: Config, s: State, inputs: Seq<Input>)
    requires
        s.mode is Held,
        at_rest(s),
        answered(c, s, inputs),
        unbroken(c, s, inputs),
    ensures
        s.mode matches Mode::Held { second_tap: before, .. } && run(
            c,
            s,
            inputs,
        ).mode matches Mode::Held { second_tap, .. } && second_tap == before,
        run(c, s, inputs).escape_grabbed == s.escape_grabbed,
        emitted(c, s, inputs) == Seq::<HotkeyEvent>::empty(),
        at_rest(run(c, s, inputs)),
        inputs.len() > 0 && (inputs.last() matches Input::KeyPress { code, .. } && code
            == c.trigger) ==> (run(c, s, inputs).mode matches Mode::Held {
            pending_release: None,
            ..
        }),
    decreases inputs.len(),
{
    if inputs.len() > 0 {
        law_key_repeat_is_invisible(c, s, inputs.drop_last());
    }
}

/// The start of a recording, once the trigger is pressed: the press, what
/// became of the Escape grab, and the delivery of the event.
pub open spec fn starting(c: Config, at: u128, grab: Input) -> Seq<Input> {
    seq![Input::KeyPress { code: c.trigger, at }, grab, Input::Delivered(Ok(true))]
}

/// The end of a recording, once it is decided: Escape is given back where it is
/// held, and the event is delivered.
pub open spec fn finishing(escape_grabbed: bool) -> Seq<Input> {
    escape_answer(escape_grabbed).push(Input::Delivered(Ok(true)))
}

/// Pressing the trigger while nothing goes on starts a recording, whether or
/// not Escape can be grabbed. It is a second tap when it comes within the
/// window after the last release.
pub proof fn law_press_starts(c: Config, s: State, at: u128, grab: Input)
    requires
        s.mode is Idle,
        s.phase is Poll,
        lets_start(grab),
    ensures
        ({
            let inputs = starting(c, at, grab);
            &&& answered(c, s, inputs)
            &&& emitted(c, s, inputs) == seq![HotkeyEvent::Start]
            &&& run(c, s, inputs) == State {
                mode: Mode::Held { second_tap: is_second_tap(s.mode, at), pending_release: None },
                escape_grabbed: s.escape_grabbed || grab is EscapeGrabbed,
                phase: Phase::Top,
            }
        }),
{
    let press = Input::KeyPress { code: c.trigger, at };
    let delivered = Input::Delivered(Ok(true));
    let start: Seq<Input> = seq![];
    lemma_one_more(c, s, start, press);
    lemma_one_more(c, s, start.push(press), grab);
    lemma_one_more(c, s, start.push(press).push(grab), delivered);
    assert(start.push(press).push(grab).push(delivered) =~= starting(c, at, grab));
}

/// One use of the trigger: idle turns, the press, turns during which it is
/// held, the release, turns within the grace period, and the look at the clock
/// that finds the grace period over.
pub struct Tap {
    pub idle: Seq<Input>,
    pub pressed_at: u128,
    pub grab: Input,
    pub held: Seq<Input>,
    pub released_at: u128,
    pub waiting: Seq<Input>,
    pub checked_at: u128,
    pub noted_at: u128,
}

impl Tap {
    /// From the idle turns to the delivery of the start.
    pub open spec fn press(self, c: Config) -> Seq<Input> {
        self.idle + starting(c, self.pressed_at, self.grab)
    }

    /// The release of the trigger.
    pub open spec fn release(self, c: Config) -> Input {
        Input::KeyRelease { code: c.trigger, at: self.released_at }
    }

    /// From the turns during which the trigger is held to the end of the grace
    /// period.
    pub open spec fn let_go(self, c: Config) -> Seq<Input> {
        self.held.push(self.release(c)) + self.waiting.push(
            Input::Tick { checked_at: self.checked_at, noted_at: self.noted_at },
        )
    }

    /// The idle turns are idle, and the recording may start.
    pub open spec fn presses(self, c: Config) -> bool {
        &&& all_calm(c, self.idle)
        &&& lets_start(self.grab)
    }

    /// From `s` on the trigger stays held until its release, and that release
    /// outlasts the grace period and no more than that look at the clock.
    pub open spec fn lets_go(self, c: Config, s: State) -> bool {
        &&& unbroken(c, s, self.held)
        &&& all_quiet(c, self.waiting)
        &&& all_in_grace(self.released_at, self.waiting)
        &&& self.checked_at >= self.released_at + 50_000_000
    }
}

/// Up to the look at the clock that finds the grace period over, letting the
/// trigger go changes nothing but that the release is pending.
proof fn lemma_release_is_pending(c: Config, s: State, tap: Tap)
    requires
        s.mode is Held,
        at_rest(s),
        answered(c, s, tap.let_go(c)),
        tap.lets_go(c, s),
    ensures
        ({
            let waited = tap.held.push(tap.release(c)) + tap.waiting;
            let tick = Input::Tick { checked_at: tap.checked_at, noted_at: tap.noted_at };
            &&& tap.let_go(c) == waited.push(tick)
            &&& answered(c, s, waited)
            &&& emitted(c, s, waited) == Seq::<HotkeyEvent>::empty()
            &&& run(c, s, waited).mode == (Mode::Held {
                second_tap: s.mode->second_tap,
                pending_release: Some(tap.released_at),
            })
            &&& run(c, s, waited).escape_grabbed == s.escape_grabbed
            &&& run(c, s, waited).phase is Top
        }),
{
    let released = tap.held.push(tap.release(c));
    let waited = released + tap.waiting;
    let tick = Input::Tick { checked_at: tap.checked_at, noted_at: tap.noted_at };
    assert(tap.let_go(c) =~= waited.push(tick));
    lemma_one_more(c, s, waited, tick);
    lemma_in_a_row(c, s, released, tap.waiting);
    lemma_one_more(c, s, tap.held, tap.release(c));
    law_key_repeat_is_invisible(c, s, tap.held);
    law_held_goes_on(c, run(c, s, released), tap.waiting);
    assert(emitted(c, s, waited) =~= Seq::<HotkeyEvent>::empty());
}

/// Letting a first tap go finishes the recording, gives the Escape grab back
/// where it is held, and is remembered where double tapping is on.
pub proof fn law_release_finishes(c: Config, s: State, tap: Tap)
    requires
        s.mode matches Mode::Held { second_tap: false, .. },
        at_rest(s),
        answered(c, s, tap.let_go(c)),
        tap.lets_go(c, s),
    ensures
        ({
            let inputs = tap.let_go(c) + finishing(s.escape_grabbed);
            &&& answered(c, s, inputs)
            &&& emitted(c, s, inputs) == seq![HotkeyEvent::Finish]
            &&& run(c, s, inputs) == State {
                mode: Mode::Idle {
                    last_release: if c.double_tap_enabled {
                        Some(tap.noted_at)
                    } else {
                        None
                    },
                },
                escape_grabbed: false,
                phase: Phase::Poll,
            }
        }),
{
    let waited = tap.held.push(tap.release(c)) + tap.waiting;
    let tick = Input::Tick { checked_at: tap.checked_at, noted_at: tap.noted_at };
    let delivered = Input::Delivered(Ok(true));
    let decided = tap.let_go(c);
    lemma_release_is_pending(c, s, tap);
    lemma_one_more(c, s, waited, tick);
    if s.escape_grabbed {
        lemma_one_more(c, s, decided, Input::EscapeReleased);
        lemma_one_more(c, s, decided.push(Input::EscapeReleased), delivered);
        assert(decided.push(Input::EscapeReleased).push(delivered) =~= decided + finishing(true));
    } else {
        lemma_one_more(c, s, decided, delivered);
        assert(decided.push(delivered) =~= decided + finishing(false));
    }
}

/// Letting a second tap go locks the recording, and emits nothing.
pub proof fn law_second_tap_locks(c: Config, s: State, tap: Tap)
    requires
        s.mode matches Mode::Held { second_tap: true, .. },
        at_rest(s),
        answered(c, s, tap.let_go(c)),
        tap.lets_go(c, s),
    ensures
        emitted(c, s, tap.let_go(c)) == Seq::<HotkeyEvent>::empty(),
        run(c, s, tap.let_go(c)) == (State { mode: Mode::Locked, phase: Phase::Poll, ..s }),
{
    let waited = tap.held.push(tap.release(c)) + tap.waiting;
    let tick = Input::Tick { checked_at: tap.checked_at, noted_at: tap.noted_at };
    lemma_release_is_pending(c, s, tap);
    lemma_one_more(c, s, waited, tick);
}

/// The first half of a tap: idle turns and the press of the trigger start a
/// recording.
pub proof fn law_tap_starts(c: Config, s: State, tap: Tap)
    requires
        s.mode is Idle,
        at_rest(s),
        answered(c, s, tap.press(c)),
        tap.presses(c),
    ensures
        emitted(c, s, tap.press(c)) == seq![HotkeyEvent::Start],
        run(c, s, tap.press(c)) == (State {
            mode: Mode::Held {
                second_tap: is_second_tap(s.mode, tap.pressed_at),
                pending_release: None,
            },
            escape_grabbed: s.escape_grabbed || tap.grab is EscapeGrabbed,
            phase: Phase::Top,
        }),
{
    let start = starting(c, tap.pressed_at, tap.grab);
    lemma_in_a_row(c, s, tap.idle, start);
    law_idle_goes_on(c, s, tap.idle);
    let idle = run(c, s, tap.idle);
    assert(answered(c, idle, start));
    let nothing: Seq<Input> = seq![];
    let press = Input::KeyPress { code: c.trigger, at: tap.pressed_at };
    lemma_one_more(c, idle, nothing, press);
    lemma_one_more(c, idle, nothing.push(press), tap.grab);
    lemma_one_more(c, idle, nothing.push(press).push(tap.grab), Input::Delivered(Ok(true)));
    assert(nothing.push(press).push(tap.grab).push(Input::Delivered(Ok(true))) =~= start);
    law_press_starts(c, idle, tap.pressed_at, tap.grab);
    assert(emitted(c, s, tap.press(c)) =~= seq![HotkeyEvent::Start]);
}

/// Holding the trigger and letting it go dictates: one start and one finish,
/// for whatever time it is held, also where another client holds Escape.
pub proof fn law_hold_dictates(c: Config, s: State, tap: Tap)
    requires
        s.mode is Idle,
        at_rest(s),
        !is_second_tap(s.mode, tap.pressed_at),
        answered(c, s, tap.press(c)),
        tap.presses(c),
        answered(c, run(c, s, tap.press(c)), tap.let_go(c)),
        tap.lets_go(c, run(c, s, tap.press(c))),
    ensures
        ({
            let inputs = tap.press(c) + (tap.let_go(c) + finishing(
                s.escape_grabbed || tap.grab is EscapeGrabbed,
            ));
            &&& answered(c, s, inputs)
            &&& emitted(c, s, inputs) == seq![HotkeyEvent::Start, HotkeyEvent::Finish]
            &&& run(c, s, inputs) == State {
                mode: Mode::Idle {
                    last_release: if c.double_tap_enabled {
                        Some(tap.noted_at)
                    } else {
                        None
                    },
                },
                escape_grabbed: false,
                phase: Phase::Poll,
            }
        }),
{
    law_tap_starts(c, s, tap);
    let held = run(c, s, tap.press(c));
    let go = tap.let_go(c) + finishing(held.escape_grabbed);
    law_release_finishes(c, held, tap);
    lemma_in_a_row(c, s, tap.press(c), go);
    assert(emitted(c, s, tap.press(c) + go) =~= seq![HotkeyEvent::Start, HotkeyEvent::Finish]);
}

/// Two quick taps lock: the first is a recording of its own, the second starts
/// one that is still on after the trigger has been let go. It makes no
/// difference whether Escape can be grabbed.
pub proof fn law_double_tap_locks(c: Config, s: State, first: Tap, second: Tap)
    requires
        c.double_tap_enabled,
        s.mode is Idle,
        at_rest(s),
        !is_second_tap(s.mode, first.pressed_at),
        answered(c, s, first.press(c)),
        first.presses(c),
        answered(c, run(c, s, first.press(c)), first.let_go(c)),
        first.lets_go(c, run(c, s, first.press(c))),
        second.pressed_at < first.noted_at + 300_000_000,
        ({
            let one = first.press(c) + (first.let_go(c) + finishing(
                s.escape_grabbed || first.grab is EscapeGrabbed,
            ));
            let between = run(c, s, one);
            &&& answered(c, between, second.press(c))
            &&& second.presses(c)
            &&& answered(c, run(c, between, second.press(c)), second.let_go(c))
            &&& second.lets_go(c, run(c, between, second.press(c)))
        }),
    ensures
        ({
            let inputs = (first.press(c) + (first.let_go(c) + finishing(
                s.escape_grabbed || first.grab is EscapeGrabbed,
            ))) + (second.press(c) + second.let_go(c));
            &&& answered(c, s, inputs)
            &&& emitted(c, s, inputs) == seq![
                HotkeyEvent::Start,
                HotkeyEvent::Finish,
                HotkeyEvent::Start,
            ]
            &&& run(c, s, inputs) == State {
                mode: Mode::Locked,
                escape_grabbed: second.grab is EscapeGrabbed,
                phase: Phase::Poll,
            }
        }),
{
    let one = first.press(c) + (first.let_go(c) + finishing(
        s.escape_grabbed || first.grab is EscapeGrabbed,
    ));
    law_hold_dictates(c, s, first);
    let between = run(c, s, one);
    law_tap_starts(c, between, second);
    let held = run(c, between, second.press(c));
    law_second_tap_locks(c, held, second);
    lemma_in_a_row(c, between, second.press(c), second.let_go(c));
    lemma_in_a_row(c, s, one, second.press(c) + second.let_go(c));
    assert(emitted(c, s, one + (second.press(c) + second.let_go(c))) =~= seq![
        HotkeyEvent::Start,
        HotkeyEvent::Finish,
        HotkeyEvent::Start,
    ]);
}

/// A locked recording goes on until the next press of the trigger, which
/// finishes it and gives the Escape grab back where it is held.
pub proof fn law_press_finishes_a_locked_recording(
    c: Config,
    s: State,
    locked: Seq<Input>,
    at: u128,
)
    requires
        s.mode is Locked,
        at_rest(s),
        answered(c, s, locked.push(Input::KeyPress { code: c.trigger, at })),
        forall|i: int| 0 <= i < locked.len() ==> !is_press(c, #[trigger] locked[i]),
    ensures
        ({
            let inputs = locked.push(Input::KeyPress { code: c.trigger, at }) + finishing(
                s.escape_grabbed,
            );
            &&& answered(c, s, inputs)
            &&& emitted(c, s, inputs) == seq![HotkeyEvent::Finish]
            &&& run(c, s, inputs) == State {
                mode: Mode::Draining,
                escape_grabbed: false,
                phase: Phase::Top,
            }
        }),
{
    let press = Input::KeyPress { code: c.trigger, at };
    let delivered = Input::Delivered(Ok(true));
    let pressed = locked.push(press);
    lemma_one_more(c, s, locked, press);
    law_locked_until_a_press(c, s, locked);
    if s.escape_grabbed {
        lemma_one_more(c, s, pressed, Input::EscapeReleased);
        lemma_one_more(c, s, pressed.push(Input::EscapeReleased), delivered);
        assert(pressed.push(Input::EscapeReleased).push(delivered) =~= pressed + finishing(true));
    } else {
        lemma_one_more(c, s, pressed, delivered);
        assert(pressed.push(delivered) =~= pressed + finishing(false));
    }
}

/// Escape cancels what is being recorded at any time, while the trigger is held
/// or after it has locked.
pub proof fn law_escape_cancels(c: Config, s: State, recorded: Seq<Input>, at: u128)
    requires
        c.escape != c.trigger,
        at_rest(s),
        answered(c, s, recorded.push(Input::KeyPress { code: c.escape, at })),
        ({
            ||| s.mode is Held && unbroken(c, s, recorded)
            ||| s.mode is Locked && forall|i: int|
                0 <= i < recorded.len() ==> !is_press(c, #[trigger] recorded[i])
        }),
    ensures
        ({
            let inputs = recorded.push(Input::KeyPress { code: c.escape, at }).push(
                Input::Delivered(Ok(true)),
            );
            &&& answered(c, s, inputs)
            &&& emitted(c, s, inputs) == seq![HotkeyEvent::Cancel]
            &&& run(c, s, inputs) == State { mode: Mode::Draining, phase: Phase::Top, ..s }
        }),
{
    let press = Input::KeyPress { code: c.escape, at };
    lemma_one_more(c, s, recorded, press);
    lemma_one_more(c, s, recorded.push(press), Input::Delivered(Ok(true)));
    if s.mode is Held {
        law_key_repeat_is_invisible(c, s, recorded);
    } else {
        law_locked_until_a_press(c, s, recorded);
    }
}

/// After a cancel, or after a press that ended a locked recording, letting the
/// trigger go makes the listener ready for a fresh hold and emits nothing.
/// Letting Escape go does the same and gives the Escape grab back where it is
/// held.
pub proof fn law_release_rearms(
    c: Config,
    s: State,
    draining: Seq<Input>,
    code: u8,
    at: u128,
)
    requires
        s.mode is Draining,
        at_rest(s),
        code == c.trigger || code == c.escape,
        answered(c, s, draining.push(Input::KeyRelease { code, at })),
        forall|i: int| 0 <= i < draining.len() ==> !is_release(c, #[trigger] draining[i]),
    ensures
        ({
            let inputs = draining.push(Input::KeyRelease { code, at }) + escape_answer(
                code != c.trigger && s.escape_grabbed,
            );
            &&& answered(c, s, inputs)
            &&& emitted(c, s, inputs) == Seq::<HotkeyEvent>::empty()
            &&& run(c, s, inputs) == State {
                mode: Mode::Idle { last_release: None },
                escape_grabbed: code == c.trigger && s.escape_grabbed,
                phase: Phase::Top,
            }
        }),
{
    let release = Input::KeyRelease { code, at };
    let released = draining.push(release);
    lemma_one_more(c, s, draining, release);
    law_draining_is_silent(c, s, draining);
    if code != c.trigger && s.escape_grabbed {
        lemma_one_more(c, s, released, Input::EscapeReleased);
        assert(released.push(Input::EscapeReleased) =~= released + escape_answer(true));
    } else {
        assert(released =~= released + escape_answer(false));
    }
}

/// The event that an input calls for.
pub open spec fn calls_for(c: Config, s: State, input: Input) -> Option<HotkeyEvent> {
    match input {
        Input::Tick { checked_at, .. } => match s.mode {
            Mode::Held { second_tap: false, pending_release: Some(released_at) } if checked_at
                >= released_at + 50_000_000 => Some(HotkeyEvent::Finish),
            _ => None,
        },
        Input::KeyPress { code, .. } => if code == c.trigger {
            match s.mode {
                Mode::Idle { .. } => Some(HotkeyEvent::Start),
                Mode::Locked => Some(HotkeyEvent::Finish),
                _ => None,
            }
        } else if code == c.escape && (s.mode is Held || s.mode is Locked) {
            Some(HotkeyEvent::Cancel)
        } else {
            None
        },
        _ => None,
    }
}

/// The events that a run calls for, in order.
pub open spec fn called_for(c: Config, s: State, inputs: Seq<Input>) -> Seq<HotkeyEvent>
    decreases inputs.len(),
{
    if inputs.len() == 0 {
        seq![]
    } else {
        let earlier = called_for(c, s, inputs.drop_last());
        match calls_for(c, run(c, s, inputs.drop_last()), inputs.last()) {
            Some(event) => earlier.push(event),
            None => earlier,
        }
    }
}

/// The event that waits for an answer about Escape.
pub open spec fn held_up(s: State) -> Seq<HotkeyEvent> {
    match s.phase {
        Phase::EscapeGrab => seq![HotkeyEvent::Start],
        Phase::EscapeRelease { finish: true, .. } => seq![HotkeyEvent::Finish],
        _ => seq![],
    }
}

/// What is called for is emitted, in order and nothing else; at most the last
/// event still waits for an answer about Escape.
pub proof fn law_emitted_is_what_was_called_for(c: Config, inputs: Seq<Input>)
    requires
        answered(c, initial(), inputs),
        !ended(run(c, initial(), inputs)),
    ensures
        called_for(c, initial(), inputs) == emitted(c, initial(), inputs) + held_up(
            run(c, initial(), inputs),
        ),
    decreases inputs.len(),
{
    if inputs.len() > 0 {
        let earlier = inputs.drop_last();
        let s = run(c, initial(), earlier);
        assert(!ended(s));
        law_emitted_is_what_was_called_for(c, earlier);
        assert(called_for(c, initial(), inputs) =~= emitted(c, initial(), inputs) + held_up(
            run(c, initial(), inputs),
        ));
    } else {
        assert(called_for(c, initial(), inputs) =~= emitted(c, initial(), inputs) + held_up(
            initial(),
        ));
    }
}

/// A run up to the input that called for its last event; nothing where it
/// called for none.
pub open spec fn up_to_last_call(c: Config, inputs: Seq<Input>) -> Seq<Input>
    decreases inputs.len(),
{
    if inputs.len() == 0 {
        inputs
    } else if calls_for(c, run(c, initial(), inputs.drop_last()), inputs.last()) is Some {
        inputs
    } else {
        up_to_last_call(c, inputs.drop_last())
    }
}

/// Whether the last event that a run called for is a finish that came of
/// letting the trigger go, noted less than the window before `at`.
pub open spec fn finished_just_before(c: Config, inputs: Seq<Input>, at: u128) -> bool {
    let finish = up_to_last_call(c, inputs);
    finish.len() > 0 && (finish.last() matches Input::Tick { noted_at, .. } && at < noted_at
        + 300_000_000)
}

/// What the modes remember of the run that led to them.
proof fn lemma_modes_remember(c: Config, inputs: Seq<Input>)
    requires
        answered(c, initial(), inputs),
    ensures
        ({
            let call = up_to_last_call(c, inputs);
            match run(c, initial(), inputs).mode {
                Mode::Idle { last_release } => last_release == if c.double_tap_enabled && call.len()
                    > 0 && call.last() is Tick {
                    Some(call.last()->Tick_noted_at)
                } else {
                    None
                },
                Mode::Held { second_tap, .. } => {
                    &&& call.len() > 0
                    &&& call.last() matches Input::KeyPress { code, at } && code == c.trigger
                    &&& calls_for(c, run(c, initial(), call.drop_last()), call.last()) == Some(
                        HotkeyEvent::Start,
                    )
                    &&& second_tap == (c.double_tap_enabled && finished_just_before(
                        c,
                        call.drop_last(),
                        call.last()->KeyPress_at,
                    ))
                },
                Mode::Locked => true,
                Mode::Draining => call.len() > 0 && call.last() is KeyPress,
            }
        }),
    decreases inputs.len(),
{
    if inputs.len() > 0 {
        lemma_modes_remember(c, inputs.drop_last());
    }
}

/// A release that outlasts the grace period locks if, and only if, double
/// tapping is on and the last event before the start of that recording was a
/// finish that came of letting the trigger go less than the window earlier.
/// Otherwise it finishes the recording.
pub proof fn law_locks_exactly_on_a_double_tap(
    c: Config,
    inputs: Seq<Input>,
    released_at: u128,
    checked_at: u128,
    noted_at: u128,
)
    requires
        answered(c, initial(), inputs),
        run(c, initial(), inputs).phase is Top,
        run(c, initial(), inputs).mode matches Mode::Held { pending_release: Some(at), .. } && at
            == released_at,
        checked_at >= released_at + 50_000_000,
    ensures
        ({
            let start = up_to_last_call(c, inputs);
            let tick = Input::Tick { checked_at, noted_at };
            let after = next(c, run(c, initial(), inputs), tick);
            &&& start.len() > 0
            &&& start.last() matches Input::KeyPress { code, at } && {
                &&& code == c.trigger
                &&& after.mode is Locked <==> c.double_tap_enabled && finished_just_before(
                    c,
                    start.drop_last(),
                    at,
                )
            }
            &&& calls_for(c, run(c, initial(), start.drop_last()), start.last()) == Some(
                HotkeyEvent::Start,
            )
            &&& !(after.mode is Locked) ==> after.mode is Idle && calls_for(
                c,
                run(c, initial(), inputs),
                tick,
            ) == Some(HotkeyEvent::Finish)
        }),
{
    lemma_modes_remember(c, inputs);
}

} // verus!
