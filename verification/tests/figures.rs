use dfa::{DeterministicFiniteAutomaton, InvalidAutomaton, Label};

fn binary_step(q: i32, a: &i32) -> Option<i32> {
    match (q, a) {
        (1, 0) => Some(1),
        (1, 1) => Some(2),
        (2, 0) => Some(3),
        (2, 1) => Some(2),
        (3, 0) => Some(2),
        (3, 1) => Some(2),
        (_, _) => None,
    }
}

fn letter_step(q: &'static str, a: &char) -> Option<&'static str> {
    match (q, a) {
        ("s", 'a') => Some("q1"),
        ("s", 'b') => Some("r1"),
        ("q1", 'a') => Some("q1"),
        ("q1", 'b') => Some("q2"),
        ("q2", 'a') => Some("q1"),
        ("q2", 'b') => Some("q2"),
        ("r1", 'a') => Some("r2"),
        ("r1", 'b') => Some("r1"),
        ("r2", 'a') => Some("r2"),
        ("r2", 'b') => Some("r1"),
        (_, _) => None,
    }
}

// Accepts the words that hold a 1 and end in an even number of 0s after
// the last 1.
#[test]
fn figure_one_six() {
    let states = vec![1, 2, 3];
    let final_states = vec![2];
    let input_alphabet = vec![0, 1];
    let dfa =
        DeterministicFiniteAutomaton::new(states, input_alphabet, binary_step, 1, final_states)
            .unwrap();
    assert!(dfa.is_accepted(vec![1, 0, 0]).accepted());
    assert!(dfa.is_accepted(vec![0, 0, 0, 1, 0, 0, 0, 0]).accepted());
    assert!(dfa.is_accepted(vec![0, 0, 1, 0, 0, 0, 0, 0, 0]).accepted());
    assert!(dfa.is_accepted(vec![1, 1, 0, 1, 0, 1, 0, 1, 0, 0, 0, 0]).accepted());
    assert_eq!(dfa.is_accepted(vec![1, 0, 0, 0]).accepted(), false);
    assert_eq!(dfa.is_accepted(vec![0, 0]).accepted(), false);
    assert_eq!(dfa.is_accepted(vec![]).accepted(), false);
}

// Accepts the words that start and end with the same letter.
#[test]
fn figure_one_eleven() {
    let states = vec!["s", "q1", "q2", "r1", "r2"];
    let final_states = vec!["q1", "r1"];
    let input_alphabet = vec!['a', 'b'];
    let start_state = "s";
    let dfa = DeterministicFiniteAutomaton::new(
        states,
        input_alphabet,
        letter_step,
        start_state,
        final_states,
    )
    .unwrap();
    assert!(dfa.is_accepted(vec!['a']).accepted());
    assert!(dfa.is_accepted(vec!['b']).accepted());
    assert!(dfa.is_accepted(vec!['a', 'b', 'a']).accepted());
    assert!(dfa.is_accepted(vec!['b', 'a', 'b']).accepted());
    assert!(dfa.is_accepted(vec!['a', 'a', 'a']).accepted());
    assert!(dfa.is_accepted(vec!['b', 'b', 'b']).accepted());
    assert!(dfa.is_accepted(vec!['a', 'b', 'a', 'b', 'a']).accepted());
    assert!(dfa.is_accepted(vec!['b', 'a', 'b', 'b', 'b', 'b', 'a', 'b']).accepted());
    assert_eq!(dfa.is_accepted(vec![]).accepted(), false);
    assert_eq!(dfa.is_accepted(vec!['a', 'b']).accepted(), false);
    assert_eq!(dfa.is_accepted(vec!['b', 'b', 'a']).accepted(), false);
    assert_eq!(dfa.is_accepted(vec!['a', 'b', 'a', 'b']).accepted(), false);
}

#[test]
fn new_keeps_the_five_parts() {
    let dfa = DeterministicFiniteAutomaton::new(vec![1, 2, 3], vec![0, 1], binary_step, 1, vec![2])
        .unwrap();
    assert_eq!(dfa.states(), &vec![1, 2, 3]);
    assert_eq!(dfa.input_alphabet(), &vec![0, 1]);
    assert_eq!(*dfa.start_state(), 1);
    assert_eq!(dfa.final_states(), &vec![2]);
}

#[test]
fn new_rejects_a_start_state_outside_the_states() {
    let made = DeterministicFiniteAutomaton::new(vec![1, 2, 3], vec![0, 1], binary_step, 4, vec![2]);
    assert_eq!(made.err(), Some(InvalidAutomaton::StartStateNotInStates));
}

#[test]
fn new_rejects_an_accepting_state_outside_the_states() {
    let made =
        DeterministicFiniteAutomaton::new(vec![1, 2, 3], vec![0, 1], binary_step, 1, vec![2, 5]);
    assert_eq!(made.err(), Some(InvalidAutomaton::AcceptingStateNotInStates));
}

#[test]
fn new_reports_the_start_state_first() {
    let made = DeterministicFiniteAutomaton::new(vec![1, 2, 3], vec![0, 1], binary_step, 4, vec![5]);
    assert_eq!(made.err(), Some(InvalidAutomaton::StartStateNotInStates));
}

#[test]
fn new_accepts_no_accepting_states() {
    let made = DeterministicFiniteAutomaton::new(vec![1], vec![0], binary_step, 1, vec![]);
    assert!(made.is_ok());
    let dfa = made.unwrap();
    assert_eq!(dfa.is_accepted(vec![0, 0]).accepted(), false);
}

#[test]
fn empty_input_accepts_iff_start_is_accepting() {
    let rejecting =
        DeterministicFiniteAutomaton::new(vec![1, 2, 3], vec![0, 1], binary_step, 1, vec![2])
            .unwrap();
    let trace = rejecting.is_accepted(vec![]);
    assert_eq!(trace.accepted(), false);
    assert_eq!(trace.path(), &vec![(1, Label::State), (1, Label::Empty)]);

    let accepting =
        DeterministicFiniteAutomaton::new(vec![1, 2, 3], vec![0, 1], binary_step, 2, vec![2])
            .unwrap();
    let trace = accepting.is_accepted(vec![]);
    assert_eq!(trace.accepted(), true);
    assert_eq!(trace.path(), &vec![(2, Label::State), (2, Label::Empty)]);
}

#[test]
fn path_of_a_full_run() {
    let dfa = DeterministicFiniteAutomaton::new(vec![1, 2, 3], vec![0, 1], binary_step, 1, vec![2])
        .unwrap();
    let trace = dfa.is_accepted(vec![1, 0, 0]);
    assert!(trace.accepted());
    assert_eq!(
        trace.path(),
        &vec![
            (1, Label::State),
            (1, Label::Empty),
            (2, Label::Symbol(1)),
            (3, Label::Symbol(0)),
            (2, Label::Symbol(0)),
        ]
    );
}

#[test]
fn full_run_has_two_more_entries_than_symbols() {
    let dfa = DeterministicFiniteAutomaton::new(vec![1, 2, 3], vec![0, 1], binary_step, 1, vec![2])
        .unwrap();
    let inputs = vec![vec![], vec![0], vec![1, 1], vec![1, 0, 0, 0], vec![0, 1, 0, 1, 0, 1, 0]];
    for input in inputs {
        let n = input.len();
        assert_eq!(dfa.is_accepted(input).path().len(), n + 2);
    }
}

fn only_a(q: u8, a: &char) -> Option<u8> {
    match (q, a) {
        (0, 'a') => Some(1),
        (1, 'a') => Some(1),
        (_, _) => None,
    }
}

#[test]
fn undefined_transition_rejects_and_stops() {
    let dfa =
        DeterministicFiniteAutomaton::new(vec![0, 1], vec!['a', 'b'], only_a, 0, vec![1]).unwrap();
    let trace = dfa.is_accepted(vec!['a', 'b', 'a', 'a']);
    assert_eq!(trace.accepted(), false);
    assert_eq!(
        trace.path(),
        &vec![(0, Label::State), (0, Label::Empty), (1, Label::Symbol('a'))]
    );
}

#[test]
fn symbols_after_the_rejection_do_not_matter() {
    let dfa =
        DeterministicFiniteAutomaton::new(vec![0, 1], vec!['a', 'b'], only_a, 0, vec![1]).unwrap();
    let short = dfa.is_accepted(vec!['a', 'b']);
    let long = dfa.is_accepted(vec!['a', 'b', 'a', 'a', 'b', 'a']);
    assert_eq!(short.accepted(), false);
    assert_eq!(long.accepted(), false);
    assert_eq!(short.path(), long.path());
}

#[test]
fn undefined_transition_on_the_first_symbol() {
    let dfa =
        DeterministicFiniteAutomaton::new(vec![0, 1], vec!['a', 'b'], only_a, 0, vec![0, 1])
            .unwrap();
    let trace = dfa.is_accepted(vec!['b']);
    assert_eq!(trace.accepted(), false);
    assert_eq!(trace.path(), &vec![(0, Label::State), (0, Label::Empty)]);
}

#[test]
fn repeated_runs_give_the_same_trace() {
    let dfa = DeterministicFiniteAutomaton::new(vec![1, 2, 3], vec![0, 1], binary_step, 1, vec![2])
        .unwrap();
    let first = dfa.is_accepted(vec![0, 1, 0, 0, 1, 0]);
    let second = dfa.is_accepted(vec![0, 1, 0, 0, 1, 0]);
    assert_eq!(first.accepted(), second.accepted());
    assert_eq!(first.path(), second.path());
}

#[test]
fn input_outside_the_alphabet_is_not_valid() {
    let dfa = DeterministicFiniteAutomaton::new(vec![1, 2, 3], vec![0, 1], binary_step, 1, vec![2])
        .unwrap();
    assert!(dfa.is_valid_input(&vec![]));
    assert!(dfa.is_valid_input(&vec![0, 1, 1, 0]));
    assert!(!dfa.is_valid_input(&vec![2]));
    assert!(!dfa.is_valid_input(&vec![0, 1, 7, 0]));
}

#[test]
fn trace_refers_to_its_automaton() {
    let dfa = DeterministicFiniteAutomaton::new(vec![1, 2, 3], vec![0, 1], binary_step, 1, vec![2])
        .unwrap();
    let trace = dfa.is_accepted(vec![1]);
    assert_eq!(trace.automaton().final_states(), &vec![2]);
    assert_eq!(trace.automaton().states(), &vec![1, 2, 3]);
    assert_eq!(*trace.automaton().start_state(), 1);
}

#[test]
fn clone_keeps_the_automaton() {
    let dfa = DeterministicFiniteAutomaton::new(vec![1, 2, 3], vec![0, 1], binary_step, 1, vec![2])
        .unwrap();
    let copy = dfa.clone();
    assert_eq!(copy.states(), dfa.states());
    assert_eq!(copy.input_alphabet(), dfa.input_alphabet());
    assert_eq!(copy.start_state(), dfa.start_state());
    assert_eq!(copy.final_states(), dfa.final_states());
    assert_eq!(copy.is_accepted(vec![1, 0, 0]).accepted(), true);
    assert_eq!(copy.is_accepted(vec![1, 0]).accepted(), false);
}

#[test]
fn label_clone_keeps_the_label() {
    assert_eq!(Label::<char>::State.clone(), Label::State);
    assert_eq!(Label::<char>::Empty.clone(), Label::Empty);
    assert_eq!(Label::Symbol('a').clone(), Label::Symbol('a'));
    assert_ne!(Label::Symbol('a'), Label::Symbol('b'));
    assert_ne!(Label::<char>::State, Label::Empty);
}
