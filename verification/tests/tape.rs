use turing::automaton_components::{MoveDirection, Symbol};
use turing::tape::Tape;

#[test]
fn test_tape() {
    let input_string = String::from("hello");
    let modified_string = String::from("heelo");
    let truncated_string = String::from("helo");
    let appended_string = String::from("helod");
    let inserted_string = String::from("heload");
    let mut t = Tape::new(&input_string);
    assert_eq!(t.output_tape(), input_string);
    t.left();
    assert_eq!(t.output_tape(), input_string);
    assert_eq!(t.read(), Symbol::Blank);
    t.right();
    t.right();
    t.right();
    assert_eq!(t.read(), Symbol::Is('l'));
    assert_eq!(t.write(Symbol::Is('e')), Symbol::Is('l'));
    assert_eq!(t.output_tape(), modified_string);
    t.left();
    assert_eq!(t.write(Symbol::Blank), Symbol::Is('e'));
    assert_eq!(t.output_tape(), truncated_string);
    t.right();
    t.right();
    t.right();
    t.right();
    t.right();
    assert_eq!(t.write(Symbol::Is('d')), Symbol::Blank);
    assert_eq!(t.output_tape(), appended_string);
    t.left();
    assert_eq!(t.output_tape(), appended_string);
    assert_eq!(t.write(Symbol::Is('a')), Symbol::Blank);
    assert_eq!(t.output_tape(), inserted_string);
}

#[test]
fn fresh_tape_exports_its_contents() {
    for s in ["", "a", "hello", "with space", "ünï©ødé ✓", "0123456789"] {
        assert_eq!(Tape::new(s).output_tape(), s);
    }
}

#[test]
fn fresh_tape_has_head_on_first_character() {
    let t = Tape::new("xyz");
    assert!(t.head_in_span());
    assert_eq!(t.read(), Symbol::Is('x'));
}

#[test]
fn empty_tape_has_no_cell_under_the_head() {
    let t = Tape::new("");
    assert!(!t.head_in_span());
    assert_eq!(t.output_tape(), "");
}

#[test]
fn empty_tape_grows_to_the_left() {
    let mut t = Tape::new("");
    t.left();
    assert!(t.head_in_span());
    assert_eq!(t.read(), Symbol::Blank);
    assert_eq!(t.write(Symbol::Is('a')), Symbol::Blank);
    assert_eq!(t.output_tape(), "a");
}

#[test]
fn empty_tape_grows_to_the_right() {
    let mut t = Tape::new("");
    t.right();
    assert!(t.head_in_span());
    assert_eq!(t.read(), Symbol::Blank);
    assert_eq!(t.write(Symbol::Is('b')), Symbol::Blank);
    t.left();
    assert_eq!(t.read(), Symbol::Blank);
    assert_eq!(t.write(Symbol::Is('a')), Symbol::Blank);
    assert_eq!(t.output_tape(), "ab");
}

#[test]
fn left_then_right_returns_to_the_same_cell() {
    let mut t = Tape::new("hi");
    let before = t.read();
    t.left();
    assert_eq!(t.read(), Symbol::Blank);
    t.right();
    assert_eq!(t.read(), before);
    assert_eq!(t.read(), Symbol::Is('h'));
    assert_eq!(t.output_tape(), "hi");
    t.right();
    assert_eq!(t.read(), Symbol::Is('i'));
    t.left();
    t.right();
    assert_eq!(t.read(), Symbol::Is('i'));
    assert_eq!(t.output_tape(), "hi");
}

#[test]
fn right_then_left_returns_to_the_same_cell() {
    let mut t = Tape::new("hi");
    t.right();
    t.right();
    assert_eq!(t.read(), Symbol::Blank);
    t.left();
    assert_eq!(t.read(), Symbol::Is('i'));
    assert_eq!(t.output_tape(), "hi");
}

#[test]
fn write_returns_what_read_returned() {
    let mut t = Tape::new("abc");
    t.right();
    let seen = t.read();
    assert_eq!(t.write(Symbol::Is('x')), seen);
    assert_eq!(t.read(), Symbol::Is('x'));
    assert_eq!(t.write(Symbol::Blank), Symbol::Is('x'));
    assert_eq!(t.read(), Symbol::Blank);
    assert_eq!(t.write(Symbol::Is('y')), Symbol::Blank);
    assert_eq!(t.read(), Symbol::Is('y'));
    assert_eq!(t.output_tape(), "ayc");
}

#[test]
fn write_changes_one_cell_only() {
    let mut t = Tape::new("abc");
    t.right();
    t.write(Symbol::Is('B'));
    t.left();
    assert_eq!(t.read(), Symbol::Is('a'));
    t.right();
    t.right();
    assert_eq!(t.read(), Symbol::Is('c'));
    assert_eq!(t.output_tape(), "aBc");
}

#[test]
fn export_leaves_out_blank_cells() {
    let mut t = Tape::new("h.i");
    t.right();
    assert_eq!(t.write(Symbol::Blank), Symbol::Is('.'));
    assert_eq!(t.read(), Symbol::Blank);
    assert_eq!(t.output_tape(), "hi");
}

#[test]
fn export_of_all_blank_tape_is_empty() {
    let mut t = Tape::new("ab");
    t.write(Symbol::Blank);
    t.right();
    t.write(Symbol::Blank);
    t.right();
    t.left();
    assert_eq!(t.output_tape(), "");
}

#[test]
fn erased_cell_stays_on_the_tape() {
    let mut t = Tape::new("abc");
    t.right();
    t.write(Symbol::Blank);
    t.right();
    assert_eq!(t.read(), Symbol::Is('c'));
    t.left();
    assert_eq!(t.read(), Symbol::Blank);
    t.left();
    assert_eq!(t.read(), Symbol::Is('a'));
}

#[test]
fn stay_changes_nothing() {
    let mut t = Tape::new("abc");
    t.right();
    t.stay();
    assert_eq!(t.read(), Symbol::Is('b'));
    assert_eq!(t.output_tape(), "abc");
    let mut e = Tape::new("");
    e.stay();
    assert!(!e.head_in_span());
}

#[test]
fn move_head_dispatches_on_direction() {
    let mut t = Tape::new("abc");
    t.move_head(MoveDirection::Right);
    assert_eq!(t.read(), Symbol::Is('b'));
    t.move_head(MoveDirection::Stay);
    assert_eq!(t.read(), Symbol::Is('b'));
    t.move_head(MoveDirection::Left);
    assert_eq!(t.read(), Symbol::Is('a'));
    t.move_head(MoveDirection::Left);
    assert_eq!(t.read(), Symbol::Blank);
    t.move_head(MoveDirection::Left);
    assert_eq!(t.read(), Symbol::Blank);
    t.move_head(MoveDirection::Right);
    t.move_head(MoveDirection::Right);
    assert_eq!(t.read(), Symbol::Is('a'));
    assert_eq!(t.output_tape(), "abc");
}

#[test]
fn long_excursion_to_both_sides() {
    let mut t = Tape::new("m");
    for _ in 0..100 {
        t.left();
    }
    t.write(Symbol::Is('l'));
    for _ in 0..200 {
        t.right();
    }
    t.write(Symbol::Is('r'));
    assert_eq!(t.output_tape(), "lmr");
    for _ in 0..100 {
        t.left();
    }
    assert_eq!(t.read(), Symbol::Is('m'));
}
