//! Transitions and transition tables as found in Turing machines.

use crate::automaton_components::{MoveDirection, State, StateView, Symbol};
use std::collections::BTreeMap;
use vstd::prelude::*;
use vstd::slice::slice_to_vec;

verus! {

/// What a `Transition` is: the state to go to, the symbol to write (`None`
/// leaves the cell as it is), and the motion of the head.
pub struct TransitionView {
    pub next_state: StateView,
    pub write: Option<Symbol>,
    pub direction: MoveDirection,
}

/// The action that a machine takes on reading a symbol in a state.
#[derive(Debug, Eq)]
pub struct Transition {
    next_state: State,
    write: Option<Symbol>,
    direction: MoveDirection,
}

impl View for Transition {
    type V = TransitionView;

    closed spec fn view(&self) -> TransitionView {
        TransitionView {
            next_state: self.next_state@,
            write: self.write,
            direction: self.direction,
        }
    }
}

impl PartialEq for Transition {
    fn eq(&self, other: &Self) -> (equal: bool) {
        self.next_state == other.next_state && self.write == other.write && self.direction
            == other.direction
    }
}

impl vstd::std_specs::cmp::PartialEqSpecImpl for Transition {
    open spec fn obeys_eq_spec() -> bool {
        true
    }

    open spec fn eq_spec(&self, other: &Self) -> bool {
        self@ == other@
    }
}

impl Transition {
    /// Puts the three parts of a transition together.
    fn create(next_state: State, write: Option<Symbol>, direction: MoveDirection) -> (transition:
        Transition)
        ensures
            transition@ == (TransitionView { next_state: next_state@, write, direction }),
    {
        Transition { next_state, write, direction }
    }

    /// The state that the machine goes to.
    pub fn get_next_state(&self) -> (state: &State)
        ensures
            state@ == self@.next_state,
    {
        &self.next_state
    }

    /// The symbol that the machine writes, or `None` where it writes nothing.
    pub fn get_write_symbol(&self) -> (symbol: Option<Symbol>)
        ensures
            symbol == self@.write,
    {
        self.write
    }

    /// The motion of the head.
    pub fn get_move(&self) -> (direction: MoveDirection)
        ensures
            direction == self@.direction,
    {
        self.direction
    }
}

/// The one rule of a state that fires on every symbol outside a given set.
pub struct NegatedRule {
    pub excluded: Set<Symbol>,
    pub transition: TransitionView,
}

/// The rules of one state: the symbols that have a rule of their own, each
/// with its transition, and at most one negated rule.
pub struct RuleSet {
    pub exact: Map<Symbol, TransitionView>,
    pub negated: Option<NegatedRule>,
}

impl RuleSet {
    /// No rule at all.
    pub open spec fn empty() -> RuleSet {
        RuleSet { exact: Map::empty(), negated: None }
    }

    /// The rules after one more has been registered. A negated rule fires on
    /// every symbol that `read` does not list. Any other rule fires on each
    /// symbol that `read` lists, and replaces what those symbols fired before.
    pub open spec fn with_rule(
        self,
        transition: TransitionView,
        read: Seq<Symbol>,
        not_read: bool,
    ) -> RuleSet {
        if not_read {
            RuleSet {
                exact: self.exact,
                negated: Some(NegatedRule { excluded: read.to_set(), transition }),
            }
        } else {
            RuleSet {
                exact: Map::new(
                    |symbol: Symbol| read.contains(symbol) || self.exact.contains_key(symbol),
                    |symbol: Symbol|
                        if read.contains(symbol) {
                            transition
                        } else {
                            self.exact[symbol]
                        },
                ),
                negated: self.negated,
            }
        }
    }

    /// The transition that fires on `symbol`: that of its own rule where it
    /// has one; else that of the negated rule, unless the rule excludes the
    /// symbol; else none.
    pub open spec fn lookup(self, symbol: Symbol) -> Option<TransitionView> {
        if self.exact.contains_key(symbol) {
            Some(self.exact[symbol])
        } else {
            match self.negated {
                Some(rule) => if rule.excluded.contains(symbol) {
                    None
                } else {
                    Some(rule.transition)
                },
                None => None,
            }
        }
    }
}

/// The key under which a symbol is indexed: the code of its character, or for
/// the blank the first number that is the code of no character.
spec fn key_of(symbol: Symbol) -> u32 {
    match symbol {
        Symbol::Is(c) => c as u32,
        Symbol::Blank => 0x11_0000u32,
    }
}

/// No two symbols have the same key.
proof fn lemma_key_of_is_injective(a: Symbol, b: Symbol)
    requires
        key_of(a) == key_of(b),
    ensures
        a == b,
{
}

/// Computes the key of `symbol`.
fn symbol_key(symbol: Symbol) -> (key: u32)
    ensures
        key == key_of(symbol),
{
    match symbol {
        Symbol::Is(c) => c as u32,
        Symbol::Blank => 0x11_0000u32,
    }
}

/// The rules of one state, as the table stores them.
///
/// Every rule ever registered is kept in `transitions`. `symbol_map` leads from
/// the key of a symbol to the index of the rule that fires on it, and
/// `not_symbols` holds the symbols that the negated rule excludes, if there is
/// such a rule; its index is then `not_symbol_transition_index`.
struct TransitionTableEntry {
    transitions: Vec<Transition>,
    symbol_map: BTreeMap<u32, usize>,
    not_symbols: Option<Vec<Symbol>>,
    not_symbol_transition_index: usize,
}

impl View for TransitionTableEntry {
    type V = RuleSet;

    closed spec fn view(&self) -> RuleSet {
        RuleSet {
            exact: Map::new(
                |symbol: Symbol| self.symbol_map@.contains_key(key_of(symbol)),
                |symbol: Symbol| self.transitions@[self.symbol_map@[key_of(symbol)] as int]@,
            ),
            negated: match self.not_symbols {
                Some(excluded) => Some(
                    NegatedRule {
                        excluded: excluded@.to_set(),
                        transition: self.transitions@[self.not_symbol_transition_index as int]@,
                    },
                ),
                None => None,
            },
        }
    }
}

impl TransitionTableEntry {
    /// Every index that the entry holds is the index of a stored rule.
    closed spec fn wf(&self) -> bool {
        &&& forall|key: u32| #[trigger]
            self.symbol_map@.contains_key(key) ==> self.symbol_map@[key] < self.transitions@.len()
        &&& self.not_symbols is Some ==> self.not_symbol_transition_index
            < self.transitions@.len()
    }

    /// An entry without any rule.
    fn new() -> (entry: TransitionTableEntry)
        ensures
            entry.wf(),
            entry@ == RuleSet::empty(),
    {
        let entry = TransitionTableEntry {
            transitions: Vec::new(),
            symbol_map: BTreeMap::new(),
            not_symbols: None,
            not_symbol_transition_index: 0,
        };
        assert(entry@.exact =~= Map::empty());
        entry
    }

    /// Stores one more rule, and lets it fire on the symbols of `read`, or as
    /// the negated rule on all symbols but those.
    fn add_transition(
        &mut self,
        next_state: State,
        read: &[Symbol],
        not_read: bool,
        write: Option<Symbol>,
        direction: MoveDirection,
    ) -> (entry: &mut Self)
        requires
            old(self).wf(),
            not_read ==> old(self)@.negated is None,
        ensures
            entry.wf(),
            entry@ == old(self)@.with_rule(
                TransitionView { next_state: next_state@, write, direction },
                read@,
                not_read,
            ),
            *final(self) == *final(entry),
    {
        let ghost rule = TransitionView { next_state: next_state@, write, direction };
        self.transitions.push(Transition::create(next_state, write, direction));
        let index = self.transitions.len() - 1;
        if not_read {
            self.not_symbols = Some(slice_to_vec(read));
            self.not_symbol_transition_index = index;
            assert(self@.exact =~= old(self)@.exact);
        } else {
            let mut i: usize = 0;
            while i < read.len()
                invariant
                    i <= read@.len(),
                    index + 1 == self.transitions@.len(),
                    self.transitions@ == old(self).transitions@.push(self.transitions@[index as int]),
                    self.transitions@[index as int]@ == rule,
                    self.not_symbols == old(self).not_symbols,
                    self.not_symbol_transition_index == old(self).not_symbol_transition_index,
                    old(self).wf(),
                    forall|key: u32| #[trigger]
                        self.symbol_map@.contains_key(key) <==> old(self).symbol_map@.contains_key(
                            key,
                        ) || exists|j: int| 0 <= j < i && key_of(read@[j]) == key,
                    forall|key: u32| #[trigger]
                        self.symbol_map@.contains_key(key) ==> self.symbol_map@[key] == if exists|
                            j: int,
                        |
                            0 <= j < i && key_of(read@[j]) == key {
                            index
                        } else {
                            old(self).symbol_map@[key]
                        },
                decreases read@.len() - i,
            {
                self.symbol_map.insert(symbol_key(read[i]), index);
                i += 1;
            }
            assert(self@.exact =~= old(self)@.with_rule(rule, read@, not_read).exact) by {
                assert forall|symbol: Symbol|
                    read@.contains(symbol) <==> exists|j: int|
                        0 <= j < read@.len() && key_of(read@[j]) == key_of(symbol) by {
                    if exists|j: int| 0 <= j < read@.len() && key_of(read@[j]) == key_of(symbol) {
                        let j = choose|j: int|
                            0 <= j < read@.len() && key_of(read@[j]) == key_of(symbol);
                        lemma_key_of_is_injective(read@[j], symbol);
                    }
                }
            }
        }
        self
    }

    /// Whether the entry has a negated rule.
    fn has_negated_rule(&self) -> (negated: bool)
        ensures
            negated == self@.negated is Some,
    {
        self.not_symbols.is_some()
    }

    /// The rule that fires on `symbol_read`, if any does.
    fn get_transition(&self, symbol_read: Symbol) -> (found: Option<&Transition>)
        requires
            self.wf(),
        ensures
            match found {
                Some(transition) => self@.lookup(symbol_read) == Some(transition@),
                None => self@.lookup(symbol_read) is None,
            },
    {
        let key = symbol_key(symbol_read);
        if let Some(index) = self.symbol_map.get(&key) {
            return Some(&self.transitions[*index]);
        }
        if let Some(excluded) = &self.not_symbols {
            if !is_listed(excluded, symbol_read) {
                return Some(&self.transitions[self.not_symbol_transition_index]);
            }
        }
        None
    }
}

/// Whether `symbol` is one of `symbols`.
fn is_listed(symbols: &Vec<Symbol>, symbol: Symbol) -> (found: bool)
    ensures
        found == symbols@.contains(symbol),
{
    let mut i: usize = 0;
    while i < symbols.len()
        invariant
            i <= symbols@.len(),
            forall|j: int| 0 <= j < i ==> symbols@[j] != symbol,
        decreases symbols@.len() - i,
    {
        if symbols[i] == symbol {
            return true;
        }
        i += 1;
    }
    false
}

/// What a `TransitionTable` is: the rules of each state that has any.
pub struct TableView {
    pub rules: Map<StateView, RuleSet>,
}

impl TableView {
    /// The table without any rule.
    pub open spec fn empty() -> TableView {
        TableView { rules: Map::empty() }
    }

    /// The rules of `state`; none where the table does not mention the state.
    pub open spec fn rules_of(self, state: StateView) -> RuleSet {
        if self.rules.contains_key(state) {
            self.rules[state]
        } else {
            RuleSet::empty()
        }
    }

    /// Whether `state` has a negated rule.
    pub open spec fn has_negated(self, state: StateView) -> bool {
        self.rules_of(state).negated is Some
    }

    /// The table after one more rule has been registered under `start`.
    pub open spec fn add(
        self,
        start: StateView,
        end: StateView,
        read: Seq<Symbol>,
        not_read: bool,
        write: Option<Symbol>,
        direction: MoveDirection,
    ) -> TableView {
        let rule = TransitionView { next_state: end, write, direction };
        TableView {
            rules: self.rules.insert(start, self.rules_of(start).with_rule(rule, read, not_read)),
        }
    }

    /// The transition that the machine takes on reading `symbol` in `state`,
    /// or `None` where the table defines none.
    pub open spec fn lookup(self, state: StateView, symbol: Symbol) -> Option<TransitionView> {
        self.rules_of(state).lookup(symbol)
    }
}

/// A symbol's own rule goes before the negated rule: where `state` has a rule
/// for `symbol`, that rule's transition is what the lookup gives, whether or
/// not the state has a negated rule and whatever that rule excludes.
pub proof fn lemma_exact_match_precedence(table: TableView, state: StateView, symbol: Symbol)
    requires
        table.rules_of(state).exact.contains_key(symbol),
    ensures
        table.lookup(state, symbol) == Some(table.rules_of(state).exact[symbol]),
{
}

/// On a symbol without a rule of its own, the negated rule of `state` decides:
/// there is no transition on a symbol that the rule excludes, and the rule's
/// transition on every other.
pub proof fn lemma_negated_rule_semantics(table: TableView, state: StateView, symbol: Symbol)
    requires
        table.has_negated(state),
        !table.rules_of(state).exact.contains_key(symbol),
    ensures
        table.lookup(state, symbol) == if table.rules_of(state).negated->0.excluded.contains(
            symbol,
        ) {
            None
        } else {
            Some(table.rules_of(state).negated->0.transition)
        },
{
}

/// Registering a rule for the symbols of `read` makes each of them fire that
/// rule under `start`, whatever it fired before, and changes nothing for the
/// other symbols.
pub proof fn lemma_exact_rule_registered(
    table: TableView,
    start: StateView,
    end: StateView,
    read: Seq<Symbol>,
    write: Option<Symbol>,
    direction: MoveDirection,
    symbol: Symbol,
)
    ensures
        table.add(start, end, read, false, write, direction).lookup(start, symbol) == if read.contains(
            symbol,
        ) {
            Some(TransitionView { next_state: end, write, direction })
        } else {
            table.lookup(start, symbol)
        },
{
}

/// Registering a negated rule under `start` leaves every symbol that has a
/// rule of its own with that rule. Of the others, those that the negated rule
/// excludes have no transition, and all the rest fire the negated rule.
pub proof fn lemma_negated_rule_registered(
    table: TableView,
    start: StateView,
    end: StateView,
    excluded: Seq<Symbol>,
    write: Option<Symbol>,
    direction: MoveDirection,
    symbol: Symbol,
)
    ensures
        table.add(start, end, excluded, true, write, direction).lookup(start, symbol)
            == if table.rules_of(start).exact.contains_key(symbol) {
            Some(table.rules_of(start).exact[symbol])
        } else if excluded.contains(symbol) {
            None
        } else {
            Some(TransitionView { next_state: end, write, direction })
        },
{
}

/// A registration under one state changes nothing for any other state.
pub proof fn lemma_registration_is_local(
    table: TableView,
    state: StateView,
    start: StateView,
    end: StateView,
    read: Seq<Symbol>,
    not_read: bool,
    write: Option<Symbol>,
    direction: MoveDirection,
)
    requires
        state != start,
    ensures
        table.add(start, end, read, not_read, write, direction).rules_of(state) == table.rules_of(
            state,
        ),
{
}

/// A state that has a negated rule keeps having one, whatever is registered
/// afterwards, and registering a negated rule gives the state one. So after
/// the first negated rule of a state no registration of a second can meet the
/// precondition of `TransitionTable::add_transition`.
pub proof fn lemma_negated_rule_is_kept(
    table: TableView,
    state: StateView,
    start: StateView,
    end: StateView,
    read: Seq<Symbol>,
    not_read: bool,
    write: Option<Symbol>,
    direction: MoveDirection,
)
    ensures
        table.add(start, end, read, true, write, direction).has_negated(start),
        table.has_negated(state) ==> table.add(
            start,
            end,
            read,
            not_read,
            write,
            direction,
        ).has_negated(state),
{
}

/// The transition table of a machine: for each state, the rules that say what
/// to do on which symbol.
pub struct TransitionTable {
    state_transitions: Vec<(State, TransitionTableEntry)>,
}

impl View for TransitionTable {
    type V = TableView;

    closed spec fn view(&self) -> TableView {
        TableView {
            rules: Map::new(
                |state: StateView| self.mentions(state),
                |state: StateView| self.state_transitions@[self.index_of(state)].1@,
            ),
        }
    }
}

impl TransitionTable {
    /// Whether some entry is stored under `state`.
    spec fn mentions(&self, state: StateView) -> bool {
        exists|i: int|
            0 <= i < self.state_transitions@.len() && #[trigger] self.state_transitions@[i].0@
                == state
    }

    /// The index of the entry stored under `state`.
    spec fn index_of(&self, state: StateView) -> int {
        choose|i: int|
            0 <= i < self.state_transitions@.len() && #[trigger] self.state_transitions@[i].0@
                == state
    }

    /// A table is valid when no state has two entries and every entry is valid.
    pub closed spec fn wf(&self) -> bool {
        &&& forall|i: int|
            0 <= i < self.state_transitions@.len() ==> (#[trigger] self.state_transitions@[i]).1.wf()
        &&& forall|i: int, j: int|
            0 <= i < j < self.state_transitions@.len() ==> (#[trigger] self.state_transitions@[i]).0@
                != (#[trigger] self.state_transitions@[j]).0@
    }

    /// The rules of a state that the table mentions are those of its entry.
    proof fn lemma_entry_at(&self, i: int)
        requires
            self.wf(),
            0 <= i < self.state_transitions@.len(),
        ensures
            self.mentions(self.state_transitions@[i].0@),
            self.index_of(self.state_transitions@[i].0@) == i,
            self@.rules_of(self.state_transitions@[i].0@) == self.state_transitions@[i].1@,
    {
    }

    /// Storing an entry, in place of the one that its state had or behind the
    /// others for a state that had none, puts its rules under that state.
    proof fn lemma_entry_stored(&self, before: &TransitionTable, at: int)
        requires
            before.wf(),
            0 <= at <= before.state_transitions@.len(),
            self.state_transitions@.len() == if at < before.state_transitions@.len() {
                before.state_transitions@.len()
            } else {
                before.state_transitions@.len() + 1
            },
            forall|j: int|
                0 <= j < before.state_transitions@.len() && j != at
                    ==> self.state_transitions@[j] == before.state_transitions@[j],
            self.state_transitions@[at].1.wf(),
            at < before.state_transitions@.len() ==> self.state_transitions@[at].0@
                == before.state_transitions@[at].0@,
            at == before.state_transitions@.len() ==> !before.mentions(
                self.state_transitions@[at].0@,
            ),
        ensures
            self.wf(),
            self@.rules == before@.rules.insert(
                self.state_transitions@[at].0@,
                self.state_transitions@[at].1@,
            ),
    {
        let start = self.state_transitions@[at].0@;
        let after = before@.rules.insert(start, self.state_transitions@[at].1@);
        assert forall|state: StateView| #[trigger]
            self@.rules.contains_key(state) == after.contains_key(state) by {
            if before.mentions(state) {
                assert(self.state_transitions@[before.index_of(state)].0@ == state);
            }
            if self.mentions(state) && state != start {
                assert(before.state_transitions@[self.index_of(state)].0@ == state);
            }
        }
        assert forall|state: StateView| #[trigger]
            self@.rules.contains_key(state) implies self@.rules[state] == after[state] by {
            let j = self.index_of(state);
            self.lemma_entry_at(j);
            if j != at {
                before.lemma_entry_at(j);
            }
        }
        assert(self@.rules =~= after);
    }

    /// Creates a table without any rule.
    pub fn new() -> (table: TransitionTable)
        ensures
            table.wf(),
            table@ == TableView::empty(),
    {
        let table = TransitionTable { state_transitions: Vec::new() };
        assert(table@.rules =~= Map::empty());
        table
    }

    /// The index of the entry of `state`, if it has one.
    fn find(&self, state: &State) -> (found: Option<usize>)
        ensures
            match found {
                Some(i) => i < self.state_transitions@.len() && self.state_transitions@[i as int].0@
                    == state@,
                None => !self.mentions(state@),
            },
    {
        let mut i: usize = 0;
        while i < self.state_transitions.len()
            invariant
                i <= self.state_transitions@.len(),
                forall|j: int| 0 <= j < i ==> (#[trigger] self.state_transitions@[j]).0@ != state@,
            decreases self.state_transitions@.len() - i,
        {
            if self.state_transitions[i].0 == *state {
                return Some(i);
            }
            i += 1;
        }
        None
    }

    /// Registers a rule under `start`: on a symbol that the rule fires on, the
    /// machine goes to `end`, writes `write_symbol` if it is one, and moves
    /// the head in `direction`.
    ///
    /// With `not_read` false the rule fires on each of `read_symbols`, and a
    /// symbol that had a rule under `start` already fires the new one from now
    /// on. With `not_read` true the rule is the negated rule of `start`: it
    /// fires on every symbol that is not among `read_symbols` and has no rule
    /// of its own. A state has one negated rule at most: to register a second
    /// is an error of the caller, who can ask `has_negated_rule` first.
    pub fn add_transition(
        &mut self,
        start: &State,
        end: &State,
        read_symbols: &[Symbol],
        not_read: bool,
        write_symbol: Option<Symbol>,
        direction: MoveDirection,
    ) -> (table: &mut Self)
        requires
            old(self).wf(),
            not_read ==> !old(self)@.has_negated(start@),
        ensures
            table.wf(),
            table@ == old(self)@.add(
                start@,
                end@,
                read_symbols@,
                not_read,
                write_symbol,
                direction,
            ),
            *final(self) == *final(table),
    {
        let ghost at: int;
        match self.find(start) {
            Some(i) => {
                proof {
                    at = i as int;
                    old(self).lemma_entry_at(at);
                }
                self.state_transitions[i].1.add_transition(
                    end.clone(),
                    read_symbols,
                    not_read,
                    write_symbol,
                    direction,
                );
            },
            None => {
                proof {
                    at = self.state_transitions@.len() as int;
                }
                let mut entry = TransitionTableEntry::new();
                entry.add_transition(end.clone(), read_symbols, not_read, write_symbol, direction);
                self.state_transitions.push((start.clone(), entry));
            },
        }
        proof {
            self.lemma_entry_stored(old(self), at);
        }
        self
    }

    /// Whether `state` has a negated rule already, so that no other can be
    /// registered under it.
    pub fn has_negated_rule(&self, state: &State) -> (negated: bool)
        requires
            self.wf(),
        ensures
            negated == self@.has_negated(state@),
    {
        match self.find(state) {
            Some(i) => self.state_transitions[i].1.has_negated_rule(),
            None => false,
        }
    }

    /// Looks up the transition that the machine takes on reading
    /// `symbol_read` in `current_state`. A symbol's own rule goes before the
    /// negated rule of the state; where neither fires, and where the table
    /// does not mention the state, there is no transition.
    pub fn get_transition(&self, current_state: &State, symbol_read: Symbol) -> (found: Option<
        &Transition,
    >)
        requires
            self.wf(),
        ensures
            match found {
                Some(transition) => self@.lookup(current_state@, symbol_read) == Some(transition@),
                None => self@.lookup(current_state@, symbol_read) is None,
            },
    {
        match self.find(current_state) {
            Some(i) => self.state_transitions[i].1.get_transition(symbol_read),
            None => None,
        }
    }
}

} // verus!
