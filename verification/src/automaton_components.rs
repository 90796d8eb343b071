//! The basic components shared by Turing machines and other automata.

use vstd::prelude::*;

verus! {

/// The content of one tape cell: a character, or nothing.
#[derive(Clone, Copy, Debug, PartialEq, Eq, PartialOrd, Ord, Structural)]
pub enum Symbol {
    Is(char),
    Blank,
}

impl Symbol {
    /// Converts an `Option<char>` to a symbol; `None` becomes `Symbol::Blank`.
    pub fn from_option(option: Option<char>) -> (symbol: Symbol)
        ensures
            symbol == Symbol::spec_from_option(option),
    {
        match option {
            Some(x) => Symbol::Is(x),
            None => Symbol::Blank,
        }
    }

    /// Converts a symbol to its `Option<char>`; a blank cell is `None`.
    pub fn to_option(&self) -> (option: Option<char>)
        ensures
            option == self.spec_to_option(),
    {
        match self {
            Symbol::Is(x) => Some(*x),
            Symbol::Blank => None,
        }
    }

    /// The symbol that stands for `option`.
    pub open spec fn spec_from_option(option: Option<char>) -> Symbol {
        match option {
            Some(x) => Symbol::Is(x),
            None => Symbol::Blank,
        }
    }

    /// The character that the symbol holds, if it holds one.
    pub open spec fn spec_to_option(self) -> Option<char> {
        match self {
            Symbol::Is(x) => Some(x),
            Symbol::Blank => None,
        }
    }
}

/// The motions available to the read/write head.
#[derive(Clone, Copy, Debug, PartialEq, Eq, Structural)]
pub enum MoveDirection {
    Left,
    Right,
    Stay,
}

/// The control states of an automaton: four reserved states and any number of
/// named ones.
#[derive(Debug, Eq, PartialOrd, Ord)]
pub enum State {
    Start,
    Accept,
    Reject,
    Halt,
    Other(String),
}

/// What a `State` is: two named states are the same state when their names
/// hold the same characters.
pub enum StateView {
    Start,
    Accept,
    Reject,
    Halt,
    Other(Seq<char>),
}

impl View for State {
    type V = StateView;

    open spec fn view(&self) -> StateView {
        match self {
            State::Start => StateView::Start,
            State::Accept => StateView::Accept,
            State::Reject => StateView::Reject,
            State::Halt => StateView::Halt,
            State::Other(name) => StateView::Other(name@),
        }
    }
}

impl Clone for State {
    fn clone(&self) -> (copy: Self)
        ensures
            copy == *self,
    {
        match self {
            State::Start => State::Start,
            State::Accept => State::Accept,
            State::Reject => State::Reject,
            State::Halt => State::Halt,
            State::Other(name) => State::Other(name.clone()),
        }
    }
}

impl PartialEq for State {
    fn eq(&self, other: &Self) -> (equal: bool) {
        match (self, other) {
            (State::Start, State::Start) => true,
            (State::Accept, State::Accept) => true,
            (State::Reject, State::Reject) => true,
            (State::Halt, State::Halt) => true,
            (State::Other(a), State::Other(b)) => *a == *b,
            _ => false,
        }
    }
}

impl vstd::std_specs::cmp::PartialEqSpecImpl for State {
    open spec fn obeys_eq_spec() -> bool {
        true
    }

    open spec fn eq_spec(&self, other: &Self) -> bool {
        self@ == other@
    }
}

} // verus!
