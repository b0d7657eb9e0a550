use turing_machine_rs::instruction::State;

#[test]
fn addition() {
    assert_eq!(State(10), State(3) + State(7));
}
