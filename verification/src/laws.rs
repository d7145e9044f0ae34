//! What holds of every run of an automaton.

use crate::automaton::DeterministicFiniteAutomaton;
use crate::trace::{Label, Run};
use std::fmt::Debug;
use vstd::prelude::*;

verus! {

proof fn lemma_walk_in_states<Q, A, F>(
    dfa: DeterministicFiniteAutomaton<Q, A, F>,
    input: Seq<A>,
    walk: Seq<Q>,
    i: int,
) where
    Q: Clone + PartialEq + Debug,
    A: PartialEq + Debug + Clone,
    F: Fn(Q, &A) -> Option<Q>,

    requires
        dfa.well_formed(),
        dfa.transition_closed(),
        dfa.valid_input(input),
        dfa.is_walk(input, walk),
        0 <= i < walk.len(),
    ensures
        dfa.is_state(walk[i]),
    decreases i,
{
    if i > 0 {
        lemma_walk_in_states(dfa, input, walk, i - 1);
        assert(dfa.in_alphabet(input[i - 1]));
        assert(dfa.enabled(walk[i - 1], input[i - 1]));
        assert(dfa.delta(walk[i - 1], input[i - 1], Some(walk[i - 1 + 1])));
    }
}

/// A transition function that can be asked about every state and symbol,
/// and names states only, is safe on every input over the alphabet.
pub proof fn lemma_closed_is_safe<Q, A, F>(
    dfa: DeterministicFiniteAutomaton<Q, A, F>,
    input: Seq<A>,
) where
    Q: Clone + PartialEq + Debug,
    A: PartialEq + Debug + Clone,
    F: Fn(Q, &A) -> Option<Q>,

    requires
        dfa.well_formed(),
        dfa.transition_closed(),
        dfa.valid_input(input),
    ensures
        dfa.safe_on(input),
{
    assert forall|walk: Seq<Q>| #[trigger]
        dfa.is_walk(input, walk) && walk.len() <= input.len() implies {
        &&& dfa.enabled(walk.last(), input[walk.len() - 1])
        &&& forall|r: Q|
            dfa.delta(walk.last(), input[walk.len() - 1], Some(r)) ==> dfa.is_state(r)
    } by {
        lemma_walk_in_states(dfa, input, walk, walk.len() - 1);
        assert(dfa.in_alphabet(input[walk.len() - 1]));
        assert(dfa.enabled(walk.last(), input[walk.len() - 1]));
    }
}

/// The states that a run passed through are states that the automaton may
/// pass through on the input.
pub proof fn lemma_run_is_walk<Q, A, F>(
    dfa: DeterministicFiniteAutomaton<Q, A, F>,
    input: Seq<A>,
    run: Run<Q, A>,
    count: int,
) where
    Q: Clone + PartialEq + Debug,
    A: PartialEq + Debug + Clone,
    F: Fn(Q, &A) -> Option<Q>,

    requires
        dfa.is_run(input, run),
        1 <= count <= run.path.len() - 1,
    ensures
        dfa.is_walk(input, run.visited(count)),
{
    let walk = run.visited(count);
    assert forall|i: int| 0 <= i < walk.len() - 1 implies dfa.delta(
        #[trigger] walk[i],
        input[i],
        Some(walk[i + 1]),
    ) by {
        assert(dfa.delta(run.path[i + 2 - 1].0, input[i + 2 - 2], Some(run.path[i + 2].0)));
    }
}

/// A run of a well-formed automaton, on an input on which its transition
/// function is safe, passes through states of the automaton only.
pub proof fn lemma_run_stays_in_states<Q, A, F>(
    dfa: DeterministicFiniteAutomaton<Q, A, F>,
    input: Seq<A>,
    run: Run<Q, A>,
) where
    Q: Clone + PartialEq + Debug,
    A: PartialEq + Debug + Clone,
    F: Fn(Q, &A) -> Option<Q>,

    requires
        dfa.well_formed(),
        dfa.safe_on(input),
        dfa.is_run(input, run),
    ensures
        dfa.stays_in_states(run),
{
    assert forall|j: int| 0 <= j < run.path.len() implies dfa.is_state(
        (#[trigger] run.path[j]).0,
    ) by {
        if j >= 2 {
            let walk = run.visited(j - 1);
            lemma_run_is_walk(dfa, input, run, j - 1);
            assert(walk.last() == run.path[j - 1].0);
            assert(dfa.delta(run.path[j - 1].0, input[j - 2], Some(run.path[j].0)));
        }
    }
}

proof fn lemma_paths_agree<Q, A, F>(
    dfa: DeterministicFiniteAutomaton<Q, A, F>,
    input: Seq<A>,
    first: Run<Q, A>,
    second: Run<Q, A>,
    j: int,
) where
    Q: Clone + PartialEq + Debug,
    A: PartialEq + Debug + Clone,
    F: Fn(Q, &A) -> Option<Q>,

    requires
        dfa.well_formed(),
        dfa.safe_on(input),
        dfa.deterministic(),
        dfa.valid_input(input),
        dfa.is_run(input, first),
        dfa.is_run(input, second),
        0 <= j < first.path.len(),
        j < second.path.len(),
    ensures
        first.path[j] == second.path[j],
    decreases j,
{
    if j >= 2 {
        lemma_paths_agree(dfa, input, first, second, j - 1);
        lemma_run_stays_in_states(dfa, input, first);
        assert(dfa.is_state(first.path[j - 1].0));
        assert(dfa.in_alphabet(input[j - 2]));
        assert(dfa.delta(first.path[j - 1].0, input[j - 2], Some(first.path[j].0)));
        assert(dfa.delta(second.path[j - 1].0, input[j - 2], Some(second.path[j].0)));
        assert(Some(first.path[j].0) == Some(second.path[j].0));
        assert(first.path[j].1 == second.path[j].1);
    }
}

proof fn lemma_not_shorter<Q, A, F>(
    dfa: DeterministicFiniteAutomaton<Q, A, F>,
    input: Seq<A>,
    first: Run<Q, A>,
    second: Run<Q, A>,
) where
    Q: Clone + PartialEq + Debug,
    A: PartialEq + Debug + Clone,
    F: Fn(Q, &A) -> Option<Q>,

    requires
        dfa.well_formed(),
        dfa.safe_on(input),
        dfa.deterministic(),
        dfa.valid_input(input),
        dfa.is_run(input, first),
        dfa.is_run(input, second),
    ensures
        first.path.len() >= second.path.len(),
{
    if first.path.len() < second.path.len() {
        let stop = first.path.len() - 1;
        lemma_paths_agree(dfa, input, first, second, stop);
        lemma_run_stays_in_states(dfa, input, first);
        assert(dfa.is_state(first.path[stop].0));
        assert(dfa.in_alphabet(input[stop - 1]));
        assert(dfa.delta(first.path[stop].0, input[stop - 1], None));
        assert(dfa.delta(second.path[stop].0, input[stop - 1], Some(second.path[stop + 1].0)));
        assert(false);
    }
}

/// Where the transition function has one answer only, an input has one run
/// only: any two runs of the automaton on the same input have the same path
/// and the same verdict.
pub proof fn lemma_run_is_unique<Q, A, F>(
    dfa: DeterministicFiniteAutomaton<Q, A, F>,
    input: Seq<A>,
    first: Run<Q, A>,
    second: Run<Q, A>,
) where
    Q: Clone + PartialEq + Debug,
    A: PartialEq + Debug + Clone,
    F: Fn(Q, &A) -> Option<Q>,

    requires
        dfa.well_formed(),
        dfa.safe_on(input),
        dfa.deterministic(),
        dfa.valid_input(input),
        dfa.is_run(input, first),
        dfa.is_run(input, second),
    ensures
        first.accepted == second.accepted,
        first.path == second.path,
{
    lemma_not_shorter(dfa, input, first, second);
    lemma_not_shorter(dfa, input, second, first);
    assert forall|j: int| 0 <= j < first.path.len() implies first.path[j] == second.path[j] by {
        lemma_paths_agree(dfa, input, first, second, j);
    }
    assert(first.path =~= second.path);
}

proof fn lemma_walk_is_path<Q, A, F>(
    dfa: DeterministicFiniteAutomaton<Q, A, F>,
    input: Seq<A>,
    run: Run<Q, A>,
    walk: Seq<Q>,
    i: int,
) where
    Q: Clone + PartialEq + Debug,
    A: PartialEq + Debug + Clone,
    F: Fn(Q, &A) -> Option<Q>,

    requires
        dfa.well_formed(),
        dfa.safe_on(input),
        dfa.deterministic(),
        dfa.valid_input(input),
        dfa.is_run(input, run),
        dfa.is_walk(input, walk),
        0 <= i <= run.consumed(),
        i < walk.len(),
    ensures
        walk[i] == run.path[i + 1].0,
    decreases i,
{
    if i > 0 {
        lemma_walk_is_path(dfa, input, run, walk, i - 1);
        lemma_run_stays_in_states(dfa, input, run);
        assert(dfa.is_state(run.path[i].0));
        assert(dfa.in_alphabet(input[i - 1]));
        assert(dfa.delta(walk[i - 1], input[i - 1], Some(walk[i - 1 + 1])));
        assert(dfa.delta(run.path[i + 1 - 1].0, input[i + 1 - 2], Some(run.path[i + 1].0)));
        assert(Some(walk[i]) == Some(run.path[i + 1].0));
    }
}

/// Where the transition function has one answer only, the verdict of a run
/// says whether its input is in the language of the automaton.
pub proof fn lemma_verdict_is_membership<Q, A, F>(
    dfa: DeterministicFiniteAutomaton<Q, A, F>,
    input: Seq<A>,
    run: Run<Q, A>,
) where
    Q: Clone + PartialEq + Debug,
    A: PartialEq + Debug + Clone,
    F: Fn(Q, &A) -> Option<Q>,

    requires
        dfa.well_formed(),
        dfa.safe_on(input),
        dfa.deterministic(),
        dfa.valid_input(input),
        dfa.is_run(input, run),
    ensures
        run.accepted == dfa.accepts(input),
{
    if run.accepted {
        let walk = run.visited(run.path.len() - 1);
        lemma_run_is_walk(dfa, input, run, run.path.len() - 1);
        assert(walk.last() == run.last_state());
        assert(dfa.accepting_walk(input, walk));
    }
    if dfa.accepts(input) {
        let walk = choose|walk: Seq<Q>| dfa.accepting_walk(input, walk);
        let stop = run.consumed();
        lemma_walk_is_path(dfa, input, run, walk, stop);
        if stop < input.len() {
            lemma_run_stays_in_states(dfa, input, run);
            assert(dfa.is_state(run.path[stop + 1].0));
            assert(dfa.in_alphabet(input[stop]));
            assert(dfa.delta(walk[stop], input[stop], Some(walk[stop + 1])));
            assert(dfa.delta(walk[stop], input[stop], None));
            assert(false);
        }
        assert(walk.last() == run.last_state());
    }
}

/// The run on the empty input never leaves the start state, and accepts
/// exactly when the start state is accepting.
pub proof fn lemma_empty_input<Q, A, F>(
    dfa: DeterministicFiniteAutomaton<Q, A, F>,
    run: Run<Q, A>,
) where
    Q: Clone + PartialEq + Debug,
    A: PartialEq + Debug + Clone,
    F: Fn(Q, &A) -> Option<Q>,

    requires
        dfa.is_run(Seq::<A>::empty(), run),
    ensures
        run.accepted == dfa.is_accepting(dfa@.start),
        run.path == seq![(dfa@.start, Label::<A>::State), (dfa@.start, Label::<A>::Empty)],
{
    assert(run.path =~= seq![(dfa@.start, Label::<A>::State), (dfa@.start, Label::<A>::Empty)]);
}

/// A run that stopped before the end of its input rejects, and nothing after
/// the symbol on which it stopped matters: it is a run on every input that
/// is the same up to and including that symbol.
pub proof fn lemma_early_rejection<Q, A, F>(
    dfa: DeterministicFiniteAutomaton<Q, A, F>,
    input: Seq<A>,
    run: Run<Q, A>,
    other: Seq<A>,
) where
    Q: Clone + PartialEq + Debug,
    A: PartialEq + Debug + Clone,
    F: Fn(Q, &A) -> Option<Q>,

    requires
        dfa.is_run(input, run),
        run.consumed() < input.len(),
        run.consumed() < other.len(),
        forall|i: int| 0 <= i <= run.consumed() ==> other[i] == input[i],
    ensures
        !run.accepted,
        dfa.is_run(other, run),
{
    assert forall|j: int| 2 <= j < run.path.len() implies {
        &&& (#[trigger] run.path[j]).1 == Label::Symbol(other[j - 2])
        &&& dfa.delta(run.path[j - 1].0, other[j - 2], Some(run.path[j].0))
    } by {
        assert(other[j - 2] == input[j - 2]);
    }
}

/// Where the transition function has one answer only, a run that stopped
/// before the end of its input is the run on every input that is the same
/// up to and including the symbol on which it stopped.
pub proof fn lemma_early_rejection_is_final<Q, A, F>(
    dfa: DeterministicFiniteAutomaton<Q, A, F>,
    input: Seq<A>,
    run: Run<Q, A>,
    other: Seq<A>,
    other_run: Run<Q, A>,
) where
    Q: Clone + PartialEq + Debug,
    A: PartialEq + Debug + Clone,
    F: Fn(Q, &A) -> Option<Q>,

    requires
        dfa.well_formed(),
        dfa.deterministic(),
        dfa.is_run(input, run),
        run.consumed() < input.len(),
        run.consumed() < other.len(),
        forall|i: int| 0 <= i <= run.consumed() ==> other[i] == input[i],
        dfa.valid_input(other),
        dfa.safe_on(other),
        dfa.is_run(other, other_run),
    ensures
        other_run.path == run.path,
        !other_run.accepted,
{
    lemma_early_rejection(dfa, input, run, other);
    lemma_run_is_unique(dfa, other, run, other_run);
}

/// A run in which no state lacked a successor on the symbol that came next
/// has consumed its whole input: its path has two entries for the start
/// state and one for each symbol, and its verdict says whether its last
/// state is accepting.
pub proof fn lemma_full_run_length<Q, A, F>(
    dfa: DeterministicFiniteAutomaton<Q, A, F>,
    input: Seq<A>,
    run: Run<Q, A>,
) where
    Q: Clone + PartialEq + Debug,
    A: PartialEq + Debug + Clone,
    F: Fn(Q, &A) -> Option<Q>,

    requires
        dfa.is_run(input, run),
        forall|j: int|
            1 <= j < run.path.len() && j <= input.len() ==> !dfa.delta(
                (#[trigger] run.path[j]).0,
                input[j - 1],
                None,
            ),
    ensures
        run.path.len() == input.len() + 2,
        run.accepted == dfa.is_accepting(run.last_state()),
{
    if run.consumed() < input.len() {
        let last = run.path.len() - 1;
        assert(!dfa.delta(run.path[last].0, input[last - 1], None));
        assert(false);
    }
}

} // verus!
