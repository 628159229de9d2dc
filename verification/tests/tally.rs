//! A machine whose responses depend on what it has seen so far.

use pakr_fsm::{run, step, Step, FSM};

#[derive(Copy, Clone, Eq, PartialEq, Debug)]
enum Ev {
    Add(u64),
    Pause,
    Resume,
    Finish,
    Abort,
}

#[derive(Copy, Clone, Eq, PartialEq, Debug)]
enum Mode {
    Counting,
    Paused,
}

impl Default for Mode {
    fn default() -> Self {
        Mode::Counting
    }
}

#[derive(Clone, Eq, PartialEq, Debug)]
struct Tally {
    total: u64,
    told: Vec<u64>,
}

impl FSM for Tally {
    type Event = Ev;
    type Response = u64;
    type State = Mode;
    type Bookkeeping = Tally;

    fn bookkeeping(&self) -> Tally {
        self.clone()
    }

    fn decision(book: Tally, old_state: &Mode, ev: &Ev) -> (Option<Mode>, Option<u64>) {
        match (old_state, ev) {
            (_, Ev::Finish) => (None, Some(book.total)),
            (_, Ev::Abort) => (None, None),
            (Mode::Counting, Ev::Pause) => (Some(Mode::Paused), Some(book.total)),
            (Mode::Paused, Ev::Resume) => (Some(Mode::Counting), None),
            (mode, _) => (Some(*mode), None),
        }
    }

    fn transited(book: Tally, old_state: &Mode, ev: &Ev) -> Tally {
        let mut after = book;
        if let (Mode::Counting, Ev::Add(n)) = (old_state, ev) {
            after.total += n;
        }
        after
    }

    fn responded(book: Tally, _old_state: &Mode, _new_state: &Option<Mode>, resp: &u64) -> Tally {
        let mut after = book;
        after.told.push(*resp);
        after
    }

    fn new() -> Self {
        Tally { total: 0, told: Vec::new() }
    }

    fn trasnsit(&mut self, old_state: &Mode, ev: &Ev) -> (Option<Mode>, Option<u64>) {
        let out = Self::decision(self.bookkeeping(), old_state, ev);
        *self = Self::transited(self.bookkeeping(), old_state, ev);
        out
    }

    fn respond(&mut self, old_state: &Mode, new_state: &Option<Mode>, resp: &u64) {
        *self = Self::responded(self.bookkeeping(), old_state, new_state, resp);
    }
}

#[test]
fn the_result_is_the_terminating_transitions_response() {
    let mut fsm = Tally::new();
    let events = vec![Ev::Add(2), Ev::Add(3), Ev::Finish];
    let out = run(&mut fsm, Mode::default(), &events);
    assert_eq!(out, Step::Done(Some(5)));
    assert_eq!(out.into_response(), Some(5));
}

#[test]
fn a_machine_may_terminate_without_a_response() {
    let mut fsm = Tally::new();
    let events = vec![Ev::Add(1), Ev::Abort, Ev::Add(5), Ev::Finish];
    let out = run(&mut fsm, Mode::default(), &events);
    assert_eq!(out, Step::Done(None));
    assert_eq!(fsm.total, 1);
    assert_eq!(fsm.told, Vec::<u64>::new());
    assert_eq!(out.into_response(), None);
}

#[test]
fn responses_on_the_way_are_told_and_not_kept() {
    let mut fsm = Tally::new();
    let events = vec![Ev::Add(4), Ev::Pause, Ev::Add(10), Ev::Resume, Ev::Add(1)];
    let out = run(&mut fsm, Mode::default(), &events);
    assert_eq!(out, Step::Next(Mode::Counting));
    assert_eq!(fsm.total, 5);
    assert_eq!(fsm.told, vec![4]);
    assert_eq!(out.into_response(), None);
}

#[test]
fn later_responses_do_not_replace_the_final_one() {
    let mut fsm = Tally::new();
    let events = vec![Ev::Add(7), Ev::Pause, Ev::Finish, Ev::Add(1), Ev::Pause, Ev::Finish];
    let out = run(&mut fsm, Mode::default(), &events);
    assert_eq!(out, Step::Done(Some(7)));
    assert_eq!(fsm.told, vec![7, 7]);
    assert_eq!(fsm.total, 7);
}

#[test]
fn bookkeeping_is_carried_from_step_to_step() {
    let mut fsm = Tally::new();
    assert_eq!(step(&mut fsm, &Mode::Counting, &Ev::Add(20)), Step::Next(Mode::Counting));
    assert_eq!(step(&mut fsm, &Mode::Counting, &Ev::Add(22)), Step::Next(Mode::Counting));
    assert_eq!(step(&mut fsm, &Mode::Counting, &Ev::Pause), Step::Next(Mode::Paused));
    assert_eq!(step(&mut fsm, &Mode::Paused, &Ev::Add(100)), Step::Next(Mode::Paused));
    assert_eq!(step(&mut fsm, &Mode::Paused, &Ev::Finish), Step::Done(Some(42)));
    assert_eq!(fsm.told, vec![42, 42]);
}

#[test]
fn equal_bookkeeping_equal_transition() {
    let mut a = Tally::new();
    let mut b = Tally::new();
    let warm_up = vec![Ev::Add(3), Ev::Add(4)];
    assert_eq!(run(&mut a, Mode::default(), &warm_up), Step::Next(Mode::Counting));
    assert_eq!(run(&mut b, Mode::default(), &warm_up), Step::Next(Mode::Counting));
    assert_eq!(a, b);
    for mode in [Mode::Counting, Mode::Paused] {
        for ev in [Ev::Add(1), Ev::Pause, Ev::Resume, Ev::Finish, Ev::Abort] {
            let mut x = a.clone();
            let mut y = b.clone();
            assert_eq!(x.trasnsit(&mode, &ev), y.trasnsit(&mode, &ev));
            assert_eq!(x, y);
        }
    }
    assert_eq!(a.trasnsit(&Mode::Paused, &Ev::Finish), (None, Some(7)));
}
