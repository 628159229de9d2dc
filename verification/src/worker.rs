//! The worker's side of a machine: what it does with one event, and with a
//! queue of them.

use crate::fsm::FSM;
use crate::laws::{law_nothing_after_termination, lemma_ran_next};
use vstd::prelude::*;

verus! {

/// How the machine stands once an event has been handled.
#[derive(Debug, PartialEq, Eq)]
pub enum Step<S, R> {
    /// The machine goes on, in this state.
    Next(S),
    /// The machine has terminated; this is its final response, if it gave one.
    Done(Option<R>),
}

impl<S, R> Step<S, R> {
    /// What a worker hands back when its queue closes at this point: the
    /// final response of a machine that has terminated, nothing otherwise.
    pub open spec fn final_response(self) -> Option<R> {
        match self {
            Step::Next(_) => None,
            Step::Done(response) => response,
        }
    }

    /// The worker's result when no further event will come.
    pub fn into_response(self) -> (out: Option<R>)
        ensures
            out == self.final_response(),
    {
        match self {
            Step::Next(_) => None,
            Step::Done(response) => response,
        }
    }
}

/// Where a run has got to: the machine's bookkeeping, and how the machine
/// stands.
pub struct Run<F: FSM> {
    pub book: F::Bookkeeping,
    pub status: Step<F::State, F::Response>,
}

/// What a transition's result means for the worker: without a next state the
/// machine terminates and the response is final, with one it goes on there.
pub open spec fn settled<S, R>(new_state: Option<S>, response: Option<R>) -> Step<S, R> {
    match new_state {
        None => Step::Done(response),
        Some(state) => Step::Next(state),
    }
}

/// One event, handled in `state`: the machine makes the transition and,
/// where that gave a response, is told of it, together with the state it was
/// in and the next state as the transition returned it.
pub open spec fn stepped<F: FSM>(book: F::Bookkeeping, state: F::State, ev: F::Event) -> Run<F> {
    let (new_state, response) = F::decision(book, &state, &ev);
    let transited = F::transited(book, &state, &ev);
    Run {
        book: match response {
            Some(r) => F::responded(transited, &state, &new_state, &r),
            None => transited,
        },
        status: settled(new_state, response),
    }
}

/// One more event for a run: a machine that goes on handles it in its
/// current state, a terminated one is left as it is.
pub open spec fn advanced<F: FSM>(run: Run<F>, ev: F::Event) -> Run<F> {
    match run.status {
        Step::Next(state) => stepped::<F>(run.book, state, ev),
        Step::Done(_) => run,
    }
}

/// The run of a machine that starts with the bookkeeping `book` in `state`
/// and is given `events` in order.
pub open spec fn ran<F: FSM>(book: F::Bookkeeping, state: F::State, events: Seq<F::Event>) -> Run<
    F,
>
    decreases events.len(),
{
    if events.len() == 0 {
        Run { book, status: Step::Next(state) }
    } else {
        advanced(ran::<F>(book, state, events.drop_last()), events.last())
    }
}

/// Decides from a transition's result whether the worker goes on.
pub fn settle<S, R>(new_state: Option<S>, response: Option<R>) -> (out: Step<S, R>)
    ensures
        out == settled(new_state, response),
{
    match new_state {
        None => Step::Done(response),
        Some(state) => Step::Next(state),
    }
}

/// Handles one event: asks the machine for the transition, tells it of the
/// response where there is one, and says how the machine stands.
pub fn step<F: FSM>(fsm: &mut F, state: &F::State, ev: &F::Event) -> (out: Step<
    F::State,
    F::Response,
>)
    ensures
        out == stepped::<F>(old(fsm).bookkeeping(), *state, *ev).status,
        final(fsm).bookkeeping() == stepped::<F>(old(fsm).bookkeeping(), *state, *ev).book,
{
    let (new_state, response) = fsm.trasnsit(state, ev);
    if let Some(r) = &response {
        fsm.respond(state, &new_state, r);
    }
    settle(new_state, response)
}

/// Gives the machine the events in order, starting in `state`, until it
/// terminates or the events are used up.
pub fn run<F: FSM>(fsm: &mut F, state: F::State, events: &[F::Event]) -> (out: Step<
    F::State,
    F::Response,
>)
    ensures
        out == ran::<F>(old(fsm).bookkeeping(), state, events@).status,
        final(fsm).bookkeeping() == ran::<F>(old(fsm).bookkeeping(), state, events@).book,
{
    let mut current = state;
    let mut i: usize = 0;
    while i < events.len()
        invariant
            i <= events.len(),
            ran::<F>(old(fsm).bookkeeping(), state, events@.take(i as int)).status == Step::<
                F::State,
                F::Response,
            >::Next(current),
            ran::<F>(old(fsm).bookkeeping(), state, events@.take(i as int)).book
                == fsm.bookkeeping(),
        decreases events.len() - i,
    {
        proof {
            lemma_ran_next::<F>(old(fsm).bookkeeping(), state, events@, i as int);
        }
        match step(fsm, &current, &events[i]) {
            Step::Next(next) => {
                current = next;
            },
            Step::Done(response) => {
                proof {
                    law_nothing_after_termination::<F>(
                        old(fsm).bookkeeping(),
                        state,
                        events@.take(i + 1),
                        events@.skip(i + 1),
                    );
                    assert(events@.take(i + 1) + events@.skip(i + 1) =~= events@);
                }
                return Step::Done(response);
            },
        }
        i += 1;
    }
    proof {
        assert(events@.take(i as int) =~= events@);
    }
    Step::Next(current)
}

} // verus!
