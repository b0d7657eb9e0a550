use turing_machine_rs::instruction::{Move, State, Tail};


#[test]
fn instruction_tail_creation() {
    let _ = Tail::new(State(0), 'c', Move::Stay);
}

#[test]
fn instruction_tail_equality() {
    let lhs = Tail::new(State(0), 'c', Move::Stay);
    let rhs = Tail::new(State(0), 'c', Move::Stay);

    assert_eq!(lhs, rhs);
}

#[test]
fn instruction_tail_creation_boxed() {
    let _ = Tail::new(State(0), Box::new('c'), Move::Stay);
}

#[test]
fn instruction_tail_equality_boxed() {
    let lhs = Tail::new(State(0), Box::new('c'), Move::Stay);
    let rhs = Tail::new(State(0), Box::new('c'), Move::Stay);

    assert_eq!(lhs, rhs);
}