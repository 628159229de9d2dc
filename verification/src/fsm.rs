//! What a state machine has to provide.

use vstd::prelude::*;

verus! {

/// The transition logic of a state machine, together with the types it works
/// on.
///
/// Output may come from the transition (a Mealy machine) or from the state
/// that it leads to (a Moore machine): either way it is the response of the
/// transition that reaches the state.
///
/// A machine may keep bookkeeping of its own and change it in `trasnsit` and
/// `respond`. `bookkeeping` says what of it matters: what `trasnsit` returns
/// is a function of that bookkeeping, the state and the event, and nothing
/// else, and so is the bookkeeping that the two leave behind. An
/// implementation states these functions (`decision`, `transited`,
/// `responded`) and owes the proof that its `trasnsit` and `respond` follow
/// them; everything that is proved of a run is proved from that.
pub trait FSM: Sized {
    /// Events come from outside and drive the machine.
    type Event: Send + Eq + PartialEq + 'static;

    /// Responses are the optional output of a transition.
    type Response: Send + 'static;

    /// The state the machine is in. Its default is the entry state.
    type State: Eq + PartialEq + Default;

    /// What the machine remembers beside its state, as far as its
    /// transitions depend on it.
    type Bookkeeping;

    /// The bookkeeping of this machine.
    spec fn bookkeeping(&self) -> Self::Bookkeeping;

    /// The next state and the response that `trasnsit` returns.
    spec fn decision(book: Self::Bookkeeping, old_state: &Self::State, ev: &Self::Event) -> (
        Option<Self::State>,
        Option<Self::Response>,
    );

    /// The bookkeeping that `trasnsit` leaves behind.
    spec fn transited(
        book: Self::Bookkeeping,
        old_state: &Self::State,
        ev: &Self::Event,
    ) -> Self::Bookkeeping;

    /// The bookkeeping that `respond` leaves behind.
    spec fn responded(
        book: Self::Bookkeeping,
        old_state: &Self::State,
        new_state: &Option<Self::State>,
        resp: &Self::Response,
    ) -> Self::Bookkeeping;

    /// Creates a new machine.
    fn new() -> Self;

    /// Maps the current state and an event to the next state and a response.
    ///
    /// - No next state means that the machine terminates; the response is
    ///   then its final one.
    /// - No response means that the transition has no output.
    fn trasnsit(&mut self, old_state: &Self::State, ev: &Self::Event) -> (out: (
        Option<Self::State>,
        Option<Self::Response>,
    ))
        ensures
            out == Self::decision(old(self).bookkeeping(), old_state, ev),
            final(self).bookkeeping() == Self::transited(old(self).bookkeeping(), old_state, ev),
    ;

    /// Is called after each transition that gave a response, with the state
    /// the machine was in, the next state as the transition returned it, and
    /// the response. The machine is still in the old state at that moment,
    /// also where the transition terminates it.
    fn respond(
        &mut self,
        old_state: &Self::State,
        new_state: &Option<Self::State>,
        resp: &Self::Response,
    )
        ensures
            final(self).bookkeeping() == Self::responded(
                old(self).bookkeeping(),
                old_state,
                new_state,
                resp,
            ),
    ;
}

} // verus!
