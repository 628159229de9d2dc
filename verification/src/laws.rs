//! What holds of every run, whatever the machine.

use crate::fsm::FSM;
use crate::worker::{advanced, ran, stepped, Step};
use vstd::prelude::*;

verus! {

/// The state in which the event at `k` is handled; `None` where the machine
/// has terminated before and the event is never handled.
pub open spec fn state_at<F: FSM>(
    book: F::Bookkeeping,
    state: F::State,
    events: Seq<F::Event>,
    k: int,
) -> Option<F::State> {
    match ran::<F>(book, state, events.take(k)).status {
        Step::Next(current) => Some(current),
        Step::Done(_) => None,
    }
}

/// The next state and the response that the transition for the event at `k`
/// returns; `None` where the event is never handled.
pub open spec fn transition_at<F: FSM>(
    book: F::Bookkeeping,
    state: F::State,
    events: Seq<F::Event>,
    k: int,
) -> Option<(Option<F::State>, Option<F::Response>)> {
    let before = ran::<F>(book, state, events.take(k));
    match before.status {
        Step::Next(current) => Some(F::decision(before.book, &current, &events[k])),
        Step::Done(_) => None,
    }
}

/// Whether the event at `k` is handled and its transition returns no next
/// state.
pub open spec fn terminates_at<F: FSM>(
    book: F::Bookkeeping,
    state: F::State,
    events: Seq<F::Event>,
    k: int,
) -> bool {
    transition_at::<F>(book, state, events, k) matches Some((None, _))
}

/// A run over the first `n + 1` events is the run over the first `n`, given
/// the event that follows them.
pub proof fn lemma_ran_next<F: FSM>(
    book: F::Bookkeeping,
    state: F::State,
    events: Seq<F::Event>,
    n: int,
)
    requires
        0 <= n < events.len(),
    ensures
        ran::<F>(book, state, events.take(n + 1)) == advanced(
            ran::<F>(book, state, events.take(n)),
            events[n],
        ),
{
    assert(events.take(n + 1).drop_last() =~= events.take(n));
}

/// Machines with the same bookkeeping, in the same state and given the same
/// event, make the same transition: they return the same next state and the
/// same response, and are left with the same bookkeeping.
pub proof fn law_transitions_are_pure<F: FSM>(a: F, b: F, state: F::State, ev: F::Event)
    requires
        a.bookkeeping() == b.bookkeeping(),
    ensures
        F::decision(a.bookkeeping(), &state, &ev) == F::decision(b.bookkeeping(), &state, &ev),
        stepped::<F>(a.bookkeeping(), state, ev) == stepped::<F>(b.bookkeeping(), state, ev),
{
}

/// Once the machine has terminated, events that follow are not handled: the
/// run stays as the terminating transition left it.
pub proof fn law_nothing_after_termination<F: FSM>(
    book: F::Bookkeeping,
    state: F::State,
    events: Seq<F::Event>,
    more: Seq<F::Event>,
)
    requires
        ran::<F>(book, state, events).status is Done,
    ensures
        ran::<F>(book, state, events + more) == ran::<F>(book, state, events),
    decreases more.len(),
{
    if more.len() == 0 {
        assert(events + more =~= events);
    } else {
        law_nothing_after_termination::<F>(book, state, events, more.drop_last());
        assert((events + more).drop_last() =~= events + more.drop_last());
    }
}

/// Where the transition for the event at `k` returns no next state, its
/// response is the final response of the run, and no later event is handled.
pub proof fn law_terminating_transition_gives_the_result<F: FSM>(
    book: F::Bookkeeping,
    state: F::State,
    events: Seq<F::Event>,
    k: int,
    response: Option<F::Response>,
)
    requires
        0 <= k < events.len(),
        transition_at::<F>(book, state, events, k) == Some((None::<F::State>, response)),
    ensures
        ran::<F>(book, state, events).status == Step::<F::State, F::Response>::Done(response),
        ran::<F>(book, state, events).status.final_response() == response,
        ran::<F>(book, state, events) == ran::<F>(book, state, events.take(k + 1)),
        forall|j: int| k < j < events.len() ==> transition_at::<F>(book, state, events, j) is None,
{
    lemma_ran_next::<F>(book, state, events, k);
    law_nothing_after_termination::<F>(book, state, events.take(k + 1), events.skip(k + 1));
    assert(events.take(k + 1) + events.skip(k + 1) =~= events);
    assert forall|j: int| k < j < events.len() implies transition_at::<F>(
        book,
        state,
        events,
        j,
    ) is None by {
        law_nothing_after_termination::<F>(
            book,
            state,
            events.take(k + 1),
            events.subrange(k + 1, j),
        );
        assert(events.take(k + 1) + events.subrange(k + 1, j) =~= events.take(j));
    }
}

/// A machine terminates at most once: no two events have a transition that
/// returns no next state.
pub proof fn law_terminates_at_most_once<F: FSM>(
    book: F::Bookkeeping,
    state: F::State,
    events: Seq<F::Event>,
    j: int,
    k: int,
)
    requires
        0 <= j < events.len(),
        0 <= k < events.len(),
        terminates_at::<F>(book, state, events, j),
        terminates_at::<F>(book, state, events, k),
    ensures
        j == k,
{
    let first: int = if j <= k { j } else { k };
    law_terminating_transition_gives_the_result::<F>(
        book,
        state,
        events,
        first,
        transition_at::<F>(book, state, events, first)->Some_0.1,
    );
}

/// Where no transition returns without a next state, the machine still goes
/// on when the events are used up, and the run has no final response.
pub proof fn law_no_termination_gives_no_result<F: FSM>(
    book: F::Bookkeeping,
    state: F::State,
    events: Seq<F::Event>,
)
    requires
        forall|k: int| 0 <= k < events.len() ==> !terminates_at::<F>(book, state, events, k),
    ensures
        ran::<F>(book, state, events).status is Next,
        ran::<F>(book, state, events).status.final_response() is None,
    decreases events.len(),
{
    if events.len() > 0 {
        let front = events.drop_last();
        let last: int = events.len() - 1;
        assert forall|k: int| 0 <= k < front.len() implies !terminates_at::<F>(
            book,
            state,
            front,
            k,
        ) by {
            assert(front.take(k) =~= events.take(k));
            assert(!terminates_at::<F>(book, state, events, k));
        }
        law_no_termination_gives_no_result::<F>(book, state, front);
        assert(events.take(last) =~= front);
        assert(!terminates_at::<F>(book, state, events, last));
    }
}

/// Each event is handled in the state that the transition before it returned
/// as the next one, the first event in the starting state; and that state is
/// the one the machine is told of together with the response.
pub proof fn law_states_thread<F: FSM>(
    book: F::Bookkeeping,
    state: F::State,
    events: Seq<F::Event>,
    k: int,
)
    requires
        0 <= k < events.len(),
        state_at::<F>(book, state, events, k) is Some,
    ensures
        k == 0 ==> state_at::<F>(book, state, events, k) == Some(state),
        k > 0 ==> (transition_at::<F>(book, state, events, k - 1) matches Some((next, _))
            && next == state_at::<F>(book, state, events, k)),
        ran::<F>(book, state, events.take(k + 1)) == stepped::<F>(
            ran::<F>(book, state, events.take(k)).book,
            state_at::<F>(book, state, events, k)->Some_0,
            events[k],
        ),
{
    lemma_ran_next::<F>(book, state, events, k);
    if k > 0 {
        lemma_ran_next::<F>(book, state, events, k - 1);
    }
}

/// A run may be made in two parts: where the machine still goes on after
/// the first events, the events that follow are handled from the state and
/// the bookkeeping that the first ones led to.
pub proof fn law_runs_go_on<F: FSM>(
    book: F::Bookkeeping,
    state: F::State,
    events: Seq<F::Event>,
    more: Seq<F::Event>,
)
    ensures
        ran::<F>(book, state, events + more) == (match ran::<F>(book, state, events).status {
            Step::Next(reached) => ran::<F>(ran::<F>(book, state, events).book, reached, more),
            Step::Done(_) => ran::<F>(book, state, events),
        }),
    decreases more.len(),
{
    if more.len() == 0 {
        assert(events + more =~= events);
    } else {
        law_runs_go_on::<F>(book, state, events, more.drop_last());
        assert((events + more).drop_last() =~= events + more.drop_last());
    }
}

} // verus!
