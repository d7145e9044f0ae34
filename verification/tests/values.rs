use dfa::values::contains;
use dfa::DeterministicFiniteAutomaton;

#[test]
fn contains_finds_what_occurs() {
    let items = vec![3, 1, 4, 1, 5];
    assert!(contains(&items, &3));
    assert!(contains(&items, &1));
    assert!(contains(&items, &5));
}

#[test]
fn contains_misses_what_does_not_occur() {
    let items = vec![3, 1, 4, 1, 5];
    assert!(!contains(&items, &2));
    assert!(!contains(&items, &0));
    let none: Vec<i32> = vec![];
    assert!(!contains(&none, &3));
}

#[test]
fn contains_compares_whole_values() {
    let items = vec!["q1", "q2"];
    assert!(contains(&items, &"q2"));
    assert!(!contains(&items, &"q"));
    assert!(!contains(&items, &"q22"));
}

fn binary_step(q: i32, a: &i32) -> Option<i32> {
    match (q, a) {
        (1, 0) => Some(1),
        (1, 1) => Some(2),
        (2, 0) => Some(3),
        (2, 1) => Some(2),
        (3, 0) => Some(2),
        (3, 1) => Some(2),
        (_, _) => None,
    }
}

// A word is in the language when it holds a 1 and ends in an even number
// of 0s.
fn in_language(word: &Vec<i32>) -> bool {
    match word.iter().rposition(|&a| a == 1) {
        Some(last_one) => (word.len() - 1 - last_one) % 2 == 0,
        None => false,
    }
}

#[test]
fn verdict_is_language_membership_for_all_short_words() {
    let dfa = DeterministicFiniteAutomaton::new(vec![1, 2, 3], vec![0, 1], binary_step, 1, vec![2])
        .unwrap();
    for length in 0..9usize {
        for bits in 0..(1u32 << length) {
            let word: Vec<i32> = (0..length).map(|i| ((bits >> i) & 1) as i32).collect();
            let expected = in_language(&word);
            let trace = dfa.is_accepted(word.clone());
            assert_eq!(trace.accepted(), expected);
            assert_eq!(trace.path().len(), word.len() + 2);
        }
    }
}

#[test]
fn every_state_on_a_path_is_a_state() {
    let dfa = DeterministicFiniteAutomaton::new(vec![1, 2, 3], vec![0, 1], binary_step, 1, vec![2])
        .unwrap();
    let trace = dfa.is_accepted(vec![0, 1, 0, 0, 0, 1, 1, 0]);
    for (state, _) in trace.path() {
        assert!(contains(dfa.states(), state));
    }
}
