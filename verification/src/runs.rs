//! Runs of the listener.
//!
//! A run is the sequence of inputs that a worker reports. It leads through the
//! states that [`next`] gives, and so does every listener that is driven by
//! [`Listener::step`](crate::listener::Listener::step).

use crate::event::HotkeyEvent;
use crate::listener::{accepted, action_for, next, Action, Config, Input, State};
use vstd::prelude::*;

verus! {

/// The state after a run.
pub open spec fn run(c: Config, s: State, inputs: Seq<Input>) -> State
    decreases inputs.len(),
{
    if inputs.len() == 0 {
        s
    } else {
        next(c, run(c, s, inputs.drop_last()), inputs.last())
    }
}

/// Whether every input of a run answers what was asked for.
pub open spec fn answered(c: Config, s: State, inputs: Seq<Input>) -> bool
    decreases inputs.len(),
{
    inputs.len() == 0 || {
        &&& answered(c, s, inputs.drop_last())
        &&& accepted(run(c, s, inputs.drop_last()).phase, inputs.last())
    }
}

/// The events that a run emits, in order.
pub open spec fn emitted(c: Config, s: State, inputs: Seq<Input>) -> Seq<HotkeyEvent>
    decreases inputs.len(),
{
    if inputs.len() == 0 {
        seq![]
    } else {
        let earlier = emitted(c, s, inputs.drop_last());
        match action_for(run(c, s, inputs), inputs.last()) {
            Action::Emit(event) => earlier.push(event),
            _ => earlier,
        }
    }
}

/// Whether the listener is done.
pub open spec fn ended(s: State) -> bool {
    s.phase is Stopped || s.phase is Failed
}

/// One more input at the end of a run.
pub proof fn lemma_one_more(c: Config, s: State, inputs: Seq<Input>, input: Input)
    ensures
        run(c, s, inputs.push(input)) == next(c, run(c, s, inputs), input),
        answered(c, s, inputs.push(input)) == (answered(c, s, inputs) && accepted(
            run(c, s, inputs).phase,
            input,
        )),
        emitted(c, s, inputs.push(input)) == match action_for(
            next(c, run(c, s, inputs), input),
            input,
        ) {
            Action::Emit(event) => emitted(c, s, inputs).push(event),
            _ => emitted(c, s, inputs),
        },
{
    assert(inputs.push(input).drop_last() =~= inputs);
}

/// One run after another.
pub proof fn lemma_in_a_row(c: Config, s: State, first: Seq<Input>, second: Seq<Input>)
    ensures
        run(c, s, first + second) == run(c, run(c, s, first), second),
        answered(c, s, first + second) == (answered(c, s, first) && answered(
            c,
            run(c, s, first),
            second,
        )),
        emitted(c, s, first + second) == emitted(c, s, first) + emitted(
            c,
            run(c, s, first),
            second,
        ),
    decreases second.len(),
{
    if second.len() == 0 {
        assert(first + second =~= first);
        assert(emitted(c, s, first) + seq![] =~= emitted(c, s, first));
    } else {
        let shorter = second.drop_last();
        lemma_in_a_row(c, s, first, shorter);
        lemma_one_more(c, s, first + shorter, second.last());
        assert((first + shorter).push(second.last()) =~= first + second);
        lemma_one_more(c, run(c, s, first), shorter, second.last());
        assert(shorter.push(second.last()) =~= second);
        assert(emitted(c, s, first + second) =~= emitted(c, s, first) + emitted(
            c,
            run(c, s, first),
            second,
        ));
    }
}

} // verus!
