//! The automaton: its five parts, their validation and the simulation.

use crate::laws::lemma_verdict_is_membership;
use crate::trace::{Label, Run, Sequence};
use crate::values::{clone_copies, contains, eq_decides};
use std::fmt::Debug;
use vstd::prelude::*;

verus! {

/// Why a five-tuple is no automaton.
#[derive(Clone, Copy, Debug, PartialEq, Eq)]
pub enum InvalidAutomaton {
    /// The start state is not among the states.
    StartStateNotInStates,
    /// Some accepting state is not among the states.
    AcceptingStateNotInStates,
}

/// The data of an automaton as a mathematical value: the five-tuple without
/// its transition function.
pub ghost struct Machine<Q, A> {
    /// The states. Only membership matters.
    pub states: Seq<Q>,
    /// The input alphabet. Only membership matters.
    pub alphabet: Seq<A>,
    /// The start state.
    pub start: Q,
    /// The accepting states. Only membership matters.
    pub accepting: Seq<Q>,
}

/// A deterministic finite automaton over states `Q` and symbols `A`. The
/// transition function may be partial: where it gives `None`, the automaton
/// rejects.
#[verifier::reject_recursive_types(Q)]
#[verifier::reject_recursive_types(A)]
pub struct DeterministicFiniteAutomaton<
    Q: Clone + PartialEq + Debug,
    A: PartialEq + Debug + Clone,
    F: Fn(Q, &A) -> Option<Q>,
> {
    states: Vec<Q>,
    input_alphabet: Vec<A>,
    transition_function: F,
    start_state: Q,
    final_states: Vec<Q>,
}

impl<Q, A, F> View for DeterministicFiniteAutomaton<Q, A, F> where
    Q: Clone + PartialEq + Debug,
    A: PartialEq + Debug + Clone,
    F: Fn(Q, &A) -> Option<Q>,
 {
    type V = Machine<Q, A>;

    closed spec fn view(&self) -> Machine<Q, A> {
        Machine {
            states: self.states@,
            alphabet: self.input_alphabet@,
            start: self.start_state,
            accepting: self.final_states@,
        }
    }
}

impl<Q, A, F> DeterministicFiniteAutomaton<Q, A, F> where
    Q: Clone + PartialEq + Debug,
    A: PartialEq + Debug + Clone,
    F: Fn(Q, &A) -> Option<Q>,
 {
    /// The transition function.
    pub closed spec fn transition(&self) -> F {
        self.transition_function
    }

    /// `q` is one of the states.
    pub open spec fn is_state(&self, q: Q) -> bool {
        self@.states.contains(q)
    }

    /// `a` is a symbol of the alphabet.
    pub open spec fn in_alphabet(&self, a: A) -> bool {
        self@.alphabet.contains(a)
    }

    /// `q` is an accepting state.
    pub open spec fn is_accepting(&self, q: Q) -> bool {
        self@.accepting.contains(q)
    }

    /// The start state is a state, and so is every accepting state.
    pub open spec fn well_formed(&self) -> bool {
        &&& self.is_state(self@.start)
        &&& forall|i: int|
            0 <= i < self@.accepting.len() ==> self.is_state(#[trigger] self@.accepting[i])
    }

    /// Every symbol of `input` is in the alphabet.
    pub open spec fn valid_input(&self, input: Seq<A>) -> bool {
        forall|i: int| 0 <= i < input.len() ==> self.in_alphabet(#[trigger] input[i])
    }

    /// The transition function may answer `to` when asked for the successor
    /// of `from` on `symbol`.
    pub open spec fn delta(&self, from: Q, symbol: A, to: Option<Q>) -> bool {
        call_ensures(self.transition(), (from, &symbol), to)
    }

    /// The transition function can be asked for the successor of `from` on
    /// `symbol`.
    pub open spec fn enabled(&self, from: Q, symbol: A) -> bool {
        call_requires(self.transition(), (from, &symbol))
    }

    /// The transition function can be asked about every state and every
    /// symbol of the alphabet, and every successor it names is a state.
    pub open spec fn transition_closed(&self) -> bool {
        forall|q: Q, a: A|
            self.is_state(q) && self.in_alphabet(a) ==> {
                &&& #[trigger] self.enabled(q, a)
                &&& forall|r: Q| #[trigger] self.delta(q, a, Some(r)) ==> self.is_state(r)
            }
    }

    /// On a state and a symbol of the alphabet the transition function has
    /// one answer only.
    pub open spec fn deterministic(&self) -> bool {
        forall|q: Q, a: A, r1: Option<Q>, r2: Option<Q>|
            self.is_state(q) && self.in_alphabet(a) && #[trigger] self.delta(q, a, r1)
                && #[trigger] self.delta(q, a, r2) ==> r1 == r2
    }

    /// The automaton may pass through the states of `walk`, in this order,
    /// while it reads the first symbols of `input`: `walk` starts with the
    /// start state, and each of its states is followed by a successor of it
    /// on the next symbol.
    pub open spec fn is_walk(&self, input: Seq<A>, walk: Seq<Q>) -> bool {
        &&& 1 <= walk.len() <= input.len() + 1
        &&& walk[0] == self@.start
        &&& forall|i: int|
            0 <= i < walk.len() - 1 ==> self.delta(#[trigger] walk[i], input[i], Some(walk[i + 1]))
    }

    /// Wherever the automaton may get to while it reads `input`, the
    /// transition function can be asked about the state reached and the
    /// symbol that comes next, and every successor it names is a state.
    pub open spec fn safe_on(&self, input: Seq<A>) -> bool {
        forall|walk: Seq<Q>|
            #[trigger] self.is_walk(input, walk) && walk.len() <= input.len() ==> {
                &&& self.enabled(walk.last(), input[walk.len() - 1])
                &&& forall|r: Q|
                    self.delta(walk.last(), input[walk.len() - 1], Some(r)) ==> self.is_state(r)
            }
    }

    /// `walk` shows that the automaton accepts `input`: the automaton may
    /// pass through it while it reads all of `input`, and it ends in an
    /// accepting state.
    pub open spec fn accepting_walk(&self, input: Seq<A>, walk: Seq<Q>) -> bool {
        &&& self.is_walk(input, walk)
        &&& walk.len() == input.len() + 1
        &&& self.is_accepting(walk.last())
    }

    /// `input` is in the language of the automaton.
    pub open spec fn accepts(&self, input: Seq<A>) -> bool {
        exists|walk: Seq<Q>| self.accepting_walk(input, walk)
    }

    /// `run` is a run of the automaton on `input`. Its path starts with the
    /// start state, twice: once labelled as the state itself, once with the
    /// empty label. Each further entry holds the successor of the state
    /// before it on the next symbol of `input`, labelled with that symbol.
    /// Where all of `input` was consumed, the verdict says whether the last
    /// state is accepting. Otherwise the run stopped because the last state
    /// has no successor on the next symbol, and the verdict is `false`.
    pub open spec fn is_run(&self, input: Seq<A>, run: Run<Q, A>) -> bool {
        &&& 0 <= run.consumed() <= input.len()
        &&& run.path[0] == (self@.start, Label::<A>::State)
        &&& run.path[1] == (self@.start, Label::<A>::Empty)
        &&& forall|j: int|
            2 <= j < run.path.len() ==> {
                &&& (#[trigger] run.path[j]).1 == Label::Symbol(input[j - 2])
                &&& self.delta(run.path[j - 1].0, input[j - 2], Some(run.path[j].0))
            }
        &&& if run.consumed() == input.len() {
            run.accepted == self.is_accepting(run.last_state())
        } else {
            &&& !run.accepted
            &&& self.delta(run.last_state(), input[run.consumed()], None)
        }
    }

    /// Every state on the path of `run` is a state of the automaton.
    pub open spec fn stays_in_states(&self, run: Run<Q, A>) -> bool {
        forall|j: int| 0 <= j < run.path.len() ==> self.is_state((#[trigger] run.path[j]).0)
    }

    /// Makes an automaton of the five parts, if the start state and every
    /// accepting state are among the states.
    pub fn new(
        states: Vec<Q>,
        input_alphabet: Vec<A>,
        transition_function: F,
        start_state: Q,
        final_states: Vec<Q>,
    ) -> (made: Result<Self, InvalidAutomaton>)
        requires
            eq_decides::<Q>(),
        ensures
            made is Ok <==> {
                &&& states@.contains(start_state)
                &&& forall|i: int|
                    0 <= i < final_states@.len() ==> states@.contains(#[trigger] final_states@[i])
            },
            match made {
                Ok(dfa) => {
                    &&& dfa@ == (Machine {
                        states: states@,
                        alphabet: input_alphabet@,
                        start: start_state,
                        accepting: final_states@,
                    })
                    &&& dfa.transition() == transition_function
                    &&& dfa.well_formed()
                },
                Err(InvalidAutomaton::StartStateNotInStates) => !states@.contains(start_state),
                Err(InvalidAutomaton::AcceptingStateNotInStates) => {
                    &&& states@.contains(start_state)
                    &&& exists|i: int|
                        0 <= i < final_states@.len() && !states@.contains(
                            #[trigger] final_states@[i],
                        )
                },
            },
    {
        if !contains(&states, &start_state) {
            return Err(InvalidAutomaton::StartStateNotInStates);
        }
        let mut i: usize = 0;
        while i < final_states.len()
            invariant
                eq_decides::<Q>(),
                states@.contains(start_state),
                i <= final_states.len(),
                forall|j: int| 0 <= j < i ==> states@.contains(#[trigger] final_states@[j]),
            decreases final_states.len() - i,
        {
            if !contains(&states, &final_states[i]) {
                return Err(InvalidAutomaton::AcceptingStateNotInStates);
            }
            i += 1;
        }
        Ok(
            DeterministicFiniteAutomaton {
                states,
                input_alphabet,
                transition_function,
                start_state,
                final_states,
            },
        )
    }

    /// The states.
    pub fn states(&self) -> (states: &Vec<Q>)
        ensures
            states@ == self@.states,
    {
        &self.states
    }

    /// The input alphabet.
    pub fn input_alphabet(&self) -> (alphabet: &Vec<A>)
        ensures
            alphabet@ == self@.alphabet,
    {
        &self.input_alphabet
    }

    /// The start state.
    pub fn start_state(&self) -> (start: &Q)
        ensures
            *start == self@.start,
    {
        &self.start_state
    }

    /// The accepting states.
    pub fn final_states(&self) -> (accepting: &Vec<Q>)
        ensures
            accepting@ == self@.accepting,
    {
        &self.final_states
    }

    /// Whether every symbol of `string` is in the alphabet.
    pub fn is_valid_input(&self, string: &Vec<A>) -> (valid: bool)
        requires
            eq_decides::<A>(),
        ensures
            valid == self.valid_input(string@),
    {
        let mut i: usize = 0;
        while i < string.len()
            invariant
                eq_decides::<A>(),
                i <= string.len(),
                forall|j: int| 0 <= j < i ==> self.in_alphabet(#[trigger] string@[j]),
            decreases string.len() - i,
        {
            if !contains(&self.input_alphabet, &string[i]) {
                return false;
            }
            i += 1;
        }
        true
    }

    /// Runs the automaton on `string` and returns the trace of the run.
    pub fn is_accepted(&self, string: Vec<A>) -> (trace: Sequence<'_, Q, A, F>)
        requires
            eq_decides::<Q>(),
            clone_copies::<Q>(),
            self.well_formed(),
            self.valid_input(string@),
            self.safe_on(string@),
        ensures
            self.is_run(string@, trace@),
            self.stays_in_states(trace@),
            string@.len() == 0 ==> trace@.accepted == self.is_accepting(self@.start),
            self.deterministic() ==> trace@.accepted == self.accepts(string@),
            trace.source() == *self,
    {
        let mut state = self.start_state.clone();
        let mut path: Vec<(Q, Label<A>)> = Vec::new();
        path.push((state.clone(), Label::State));
        path.push((state.clone(), Label::Empty));
        let ghost mut walk: Seq<Q> = seq![state];
        for symbol in symbols: string.into_iter()
            invariant
                clone_copies::<Q>(),
                self.well_formed(),
                self.valid_input(string@),
                self.safe_on(string@),
                symbols.seq() == string@,
                path@.len() == symbols.index() + 2,
                path@[0] == (self@.start, Label::<A>::State),
                path@[1] == (self@.start, Label::<A>::Empty),
                state == path@.last().0,
                forall|j: int| 0 <= j < path@.len() ==> self.is_state((#[trigger] path@[j]).0),
                forall|j: int|
                    2 <= j < path@.len() ==> {
                        &&& (#[trigger] path@[j]).1 == Label::Symbol(string@[j - 2])
                        &&& self.delta(path@[j - 1].0, string@[j - 2], Some(path@[j].0))
                    },
                walk.len() == path@.len() - 1,
                walk.last() == state,
                self.is_walk(string@, walk),
        {
            match (self.transition_function)(state.clone(), &symbol) {
                Some(next) => {
                    proof {
                        let longer = walk.push(next);
                        assert forall|i: int| 0 <= i < longer.len() - 1 implies self.delta(
                            #[trigger] longer[i],
                            string@[i],
                            Some(longer[i + 1]),
                        ) by {
                            if i < walk.len() - 1 {
                                assert(self.delta(walk[i], string@[i], Some(walk[i + 1])));
                            }
                        }
                        walk = longer;
                    }
                    state = next;
                    path.push((state.clone(), Label::Symbol(symbol)));
                },
                None => {
                    let trace = Sequence::assemble(self, path, false);
                    proof {
                        if self.deterministic() {
                            lemma_verdict_is_membership(*self, string@, trace@);
                        }
                    }
                    return trace;
                },
            }
        }
        let accept = contains(&self.final_states, &state);
        let trace = Sequence::assemble(self, path, accept);
        proof {
            if self.deterministic() {
                lemma_verdict_is_membership(*self, string@, trace@);
            }
        }
        trace
    }
}

impl<Q, A, F> Clone for DeterministicFiniteAutomaton<Q, A, F> where
    Q: Clone + PartialEq + Debug,
    A: PartialEq + Debug + Clone,
    F: Fn(Q, &A) -> Option<Q> + Clone,
 {
    /// Copies the automaton part by part.
    fn clone(&self) -> (copy: Self)
        ensures
            clone_copies::<Q>() && clone_copies::<A>() ==> copy@ == self@,
            cloned(self.transition(), copy.transition()),
    {
        DeterministicFiniteAutomaton {
            states: self.states.clone(),
            input_alphabet: self.input_alphabet.clone(),
            transition_function: self.transition_function.clone(),
            start_state: self.start_state.clone(),
            final_states: self.final_states.clone(),
        }
    }
}

} // verus!
