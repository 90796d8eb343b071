//! The execution core of a Turing-machine simulator: the vocabulary of symbols,
//! states and head motions, the two-way unbounded tape, and the transition table.

pub mod automaton_components;
pub mod tape;
pub mod transition_table;
