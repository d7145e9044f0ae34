//! The trace of one run of an automaton.

use crate::automaton::DeterministicFiniteAutomaton;
use std::fmt::Debug;
use vstd::prelude::*;

verus! {

/// What an entry of a path is tagged with.
#[derive(Debug, PartialEq, Eq)]
pub enum Label<A> {
    /// The entry stands for the state itself: the first entry of every path.
    State,
    /// No symbol was read to get here: the second entry of every path.
    Empty,
    /// The symbol whose transition led to the entry's state.
    Symbol(A),
}

impl<A: Clone> Clone for Label<A> {
    fn clone(&self) -> (copy: Self)
        ensures
            match (*self, copy) {
                (Label::State, Label::State) => true,
                (Label::Empty, Label::Empty) => true,
                (Label::Symbol(a), Label::Symbol(b)) => cloned(a, b),
                _ => false,
            },
    {
        match self {
            Label::State => Label::State,
            Label::Empty => Label::Empty,
            Label::Symbol(a) => Label::Symbol(a.clone()),
        }
    }
}

/// A trace as a mathematical value.
pub ghost struct Run<Q, A> {
    /// The states passed through, each with what led to it.
    pub path: Seq<(Q, Label<A>)>,
    /// The verdict.
    pub accepted: bool,
}

impl<Q, A> Run<Q, A> {
    /// How many input symbols the run has consumed.
    pub open spec fn consumed(self) -> int {
        self.path.len() - 2
    }

    /// The state in which the run ended.
    pub open spec fn last_state(self) -> Q {
        self.path.last().0
    }

    /// The first `count` states that the run passed through, the start
    /// state first.
    pub open spec fn visited(self, count: int) -> Seq<Q> {
        Seq::new(count as nat, |k: int| self.path[k + 1].0)
    }
}

/// The trace of one run: the automaton it was made on, the path and the
/// verdict.
#[verifier::reject_recursive_types(Q)]
#[verifier::reject_recursive_types(A)]
pub struct Sequence<
    'a,
    Q: Clone + PartialEq + Debug,
    A: PartialEq + Debug + Clone,
    F: Fn(Q, &A) -> Option<Q>,
> {
    dfa: &'a DeterministicFiniteAutomaton<Q, A, F>,
    sequence: Vec<(Q, Label<A>)>,
    accept: bool,
}

impl<'a, Q, A, F> View for Sequence<'a, Q, A, F> where
    Q: Clone + PartialEq + Debug,
    A: PartialEq + Debug + Clone,
    F: Fn(Q, &A) -> Option<Q>,
 {
    type V = Run<Q, A>;

    closed spec fn view(&self) -> Run<Q, A> {
        Run { path: self.sequence@, accepted: self.accept }
    }
}

impl<'a, Q, A, F> Sequence<'a, Q, A, F> where
    Q: Clone + PartialEq + Debug,
    A: PartialEq + Debug + Clone,
    F: Fn(Q, &A) -> Option<Q>,
 {
    /// The automaton that the run was made on.
    pub closed spec fn source(&self) -> DeterministicFiniteAutomaton<Q, A, F> {
        *self.dfa
    }

    /// Puts a trace together from its parts.
    pub(crate) fn assemble(
        dfa: &'a DeterministicFiniteAutomaton<Q, A, F>,
        sequence: Vec<(Q, Label<A>)>,
        accept: bool,
    ) -> (trace: Self)
        ensures
            trace@.path == sequence@,
            trace@.accepted == accept,
            trace.source() == *dfa,
    {
        Sequence { dfa, sequence, accept }
    }

    /// Whether the run accepted its input.
    pub fn accepted(&self) -> (verdict: bool)
        ensures
            verdict == self@.accepted,
    {
        self.accept
    }

    /// The states passed through, in order, each with what led to it.
    pub fn path(&self) -> (path: &Vec<(Q, Label<A>)>)
        ensures
            path@ == self@.path,
    {
        &self.sequence
    }

    /// The automaton that the run was made on.
    pub fn automaton(&self) -> (dfa: &'a DeterministicFiniteAutomaton<Q, A, F>)
        ensures
            *dfa == self.source(),
    {
        self.dfa
    }
}

} // verus!
