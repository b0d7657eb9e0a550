use turing_machine_rs::instruction::{Move, State};
use turing_machine_rs::state::{Configuration, Tape};
use turing_machine_rs::TuringError;


#[test]
fn state_configuration_success_creation() {
    let tape = Tape::from("test");
    let _ = Configuration::new(tape, 0, State(1)).unwrap();
}

#[test]
#[should_panic]
fn state_configuration_fail_creation() {
    let tape = Tape::from("test");
    let _ = Configuration::new(tape, 5, State(1)).unwrap();
}

#[test]
fn state_configuration_destruction() {
    let conf = Configuration::new(Tape::from("_"), 0, State(1)).unwrap();
    let items = conf.destruct();

    assert_eq!((Tape::from("_"), 0, State(1)), items);
}

#[test]
fn state_configuration_index() {
    let conf = Configuration::new(Tape::from("test"), 0, State(1)).unwrap();
    assert_eq!(conf.index(), 0);

    let conf = Configuration::new(Tape::from("test"), 1, State(1)).unwrap();
    assert_eq!(conf.index(), 1);
}

#[test]
fn state_configuration_is_empty() {
    let conf = Configuration::new(Tape::from("_"), 0, State(1)).unwrap();
    assert!(!conf.is_empty());
}

#[test]
fn state_configuration_into_tape() {
    let conf = Configuration::new(Tape::from("_"), 0, State(1)).unwrap();
    assert_eq!(conf.into_tape(), Tape::from("_"));
}

#[test]
fn state_configuration_nrm_creation() {
    let conf = Configuration::new_nrm(Tape::from("test")).unwrap();

    let expected = Configuration::new(Tape::from("test"), 0, State(1)).unwrap();

    assert_eq!(expected, conf);
}

#[test]
fn state_configuration_std_creation() {
    let conf = Configuration::new_std(Tape::from("test")).unwrap();
    let expected = Configuration::new(Tape::from("test"), 3, State(1)).unwrap();

    assert_eq!(expected, conf);
}

#[test]
fn state_configuration_creation_equality() {
    let tape = Tape::from("test");

    let lhs = Configuration::new_nrm(tape.clone()).unwrap();
    let rhs = Configuration::new(tape.clone(), 0, State(1)).unwrap();
    assert_eq!(lhs, rhs);

    let lhs = Configuration::new_std(tape.clone()).unwrap();
    let rhs = Configuration::new(tape.clone(), tape.len() - 1, State(1)).unwrap();
    assert_eq!(lhs, rhs);
}

#[test]
fn state_configuration_tape() {
    let tape = Tape::from("test");
    let conf = Configuration::new_std(tape.clone()).unwrap();

    assert_eq!(conf.tape().as_vec(), tape.as_vec());
}

#[test]
fn state_configuration_set_symbol() {
    let mut conf = Configuration::new(Tape::from("test"), 0, State(1)).unwrap();
    conf.set_symbol('T');

    let expected = Configuration::new(Tape::from("Test"), 0, State(1)).unwrap();

    assert_eq!(expected, conf);
}

#[test]
fn state_configuration_get_symbol() {
    let conf = Configuration::new_std(Tape::from("test!")).unwrap();

    assert_eq!(*conf.get_symbol(), '!');
}

#[test]
fn state_configuration_shift() {
    let tape = Tape::from("test");
    let mut conf = Configuration::new_std(tape).unwrap();

    conf.shift(Move::Right, '!'); // test!
                                       // ----^
    conf.shift(Move::Left, ' '); // test!
                                      // ---^
    conf.shift(Move::Left, ' '); // test!
                                      // --^
    conf.shift(Move::Left, ' '); // test!
                                      // -^
    conf.shift(Move::Left, ' '); // test!
                                      // ^
    conf.set_symbol('T');

    let expected = Configuration::new(Tape::from("Test!"), 0, State(1)).unwrap();
    assert_eq!(expected, conf);
}

#[test]
fn state_configuration_len() {
    let tape = Tape::from("test");
    let conf = Configuration::new_std(tape.clone()).unwrap();

    assert_eq!(conf.len(), tape.len());

    let mut conf = conf.clone();
    conf.shift(Move::Right, '!'); // test!
                                       // ----^
    assert_eq!(conf.len(), tape.len() + 1);
}

#[test]
fn state_configuration_state_independence() {
    // Whatever going on, configuration state must not be changed by self methods
    // It must be changed only by outside

    let tape = Tape::from("test");
    let mut conf = Configuration::new(tape, 0, State(1)).unwrap();

    let _ = conf.index();
    let _ = conf.tape();
    conf.set_symbol('T');
    let _ = conf.get_symbol();

    conf.shift(Move::Right, ' '); // Test
                                       // ^
    conf.shift(Move::Right, ' '); // Test
                                       // -^
    conf.shift(Move::Right, ' '); // Test
                                       // --^
    conf.shift(Move::Right, ' '); // Test
                                       // ---^
    conf.shift(Move::Right, '!'); // Test!
                                       // ----^
    let _ = conf.len();

    assert_eq!(conf.state, State(1));
}

#[test]
fn state_configuration_success_creation_boxed() {
    let tape = Tape::new("test".chars().map(|ch| Box::new(ch)).collect());
    let _ = Configuration::new(tape, 0, State(1));
}

#[test]
fn state_configuration_fail_creation_boxed() {
    let tape = Tape::new("test".chars().map(|ch| Box::new(ch)).collect());
    assert_eq!(
        Configuration::new(tape, 5, State(1)),
        Err(TuringError::IndexOutOfBounds { len: 4, index: 5 })
    );
}

#[test]
fn state_configuration_destruction_boxed() {
    let conf = Configuration::new(Tape::new(vec![Box::new("_")]), 0, State(1)).unwrap();
    let items = conf.destruct();

    assert_eq!((Tape::new(vec![Box::new("_")]), 0, State(1)), items);
}

#[test]
fn state_configuration_index_boxed() {
    let conf =
        Configuration::new(Tape::new("test".chars().map(|ch| Box::new(ch)).collect()), 0, State(1)).unwrap();
    assert_eq!(conf.index(), 0);

    let conf =
        Configuration::new(Tape::new("test".chars().map(|ch| Box::new(ch)).collect()), 1, State(1)).unwrap();
    assert_eq!(conf.index(), 1);
}

#[test]
fn state_configuration_is_empty_boxed() {
    let conf = Configuration::new(Tape::new(vec![Box::new('_')]), 0, State(1)).unwrap();
    assert!(!conf.is_empty());
}

#[test]
fn state_configuration_into_tape_boxed() {
    let conf = Configuration::new(Tape::new(vec![Box::new('_')]), 0, State(1)).unwrap();
    assert_eq!(conf.into_tape(), Tape::new(vec![Box::new('_')]));
}

#[test]
fn state_configuration_nrm_creation_boxed() {
    let conf =
        Configuration::new_nrm(Tape::new("test".chars().map(|ch| Box::new(ch)).collect())).unwrap();

    let expected =
        Configuration::new(Tape::new("test".chars().map(|ch| Box::new(ch)).collect()), 0, State(1)).unwrap();

    assert_eq!(expected, conf);
}

#[test]
fn state_configuration_std_creation_boxed() {
    let conf = Configuration::new_std(Tape::new("test".chars().map(|ch| Box::new(ch)).collect()));
    let expected = Configuration::new(Tape::new("test".chars().map(|ch| Box::new(ch)).collect()), 3, State(1));

    assert_eq!(expected, conf);
}

#[test]
fn state_configuration_creation_equality_boxed() {
    let tape = Tape::new("test".chars().map(|ch| Box::new(ch)).collect());

    let lhs = Configuration::new_nrm(tape.clone()).unwrap();
    let rhs = Configuration::new(tape.clone(), 0, State(1)).unwrap();
    assert_eq!(lhs, rhs);

    let lhs = Configuration::new_std(tape.clone()).unwrap();
    let rhs = Configuration::new(tape.clone(), tape.len() - 1, State(1)).unwrap();
    assert_eq!(lhs, rhs);
}

#[test]
fn state_configuration_tape_boxed() {
    let tape = Tape::new("test".chars().map(|ch| Box::new(ch)).collect());
    let conf = Configuration::new_std(tape.clone()).unwrap();

    assert_eq!(conf.tape().as_vec(), tape.as_vec());
}

#[test]
fn state_configuration_set_symbol_boxed() {
    let mut conf =
        Configuration::new(Tape::new("test".chars().map(|ch| Box::new(ch)).collect()), 0, State(1)).unwrap();
    conf.set_symbol(Box::new('T'));

    let expected =
        Configuration::new(Tape::new("Test".chars().map(|ch| Box::new(ch)).collect()), 0, State(1)).unwrap();

    assert_eq!(expected, conf);
}

#[test]
fn state_configuration_get_symbol_boxed() {
    let conf =
        Configuration::new_std(Tape::new("test!".chars().map(|ch| Box::new(ch)).collect())).unwrap();

    assert_eq!(*conf.get_symbol(), Box::new('!'));
}

#[test]
fn state_configuration_shift_boxed() {
    let tape = Tape::new("test".chars().map(|ch| Box::new(ch)).collect());
    let mut conf = Configuration::new_std(tape).unwrap();

    conf.shift(Move::Right, Box::new('!')); // test!
                                                 // ----^
    conf.shift(Move::Left, Box::new(' ')); // test!
                                                // ---^
    conf.shift(Move::Left, Box::new(' ')); // test!
                                                // --^
    conf.shift(Move::Left, Box::new(' ')); // test!
                                                // -^
    conf.shift(Move::Left, Box::new(' ')); // test!
                                                // ^
    conf.set_symbol(Box::new('T'));

    let expected =
        Configuration::new(Tape::new("Test!".chars().map(|ch| Box::new(ch)).collect()), 0, State(1)).unwrap();
    assert_eq!(expected, conf);
}

#[test]
fn state_configuration_len_boxed() {
    let tape = Tape::new("test".chars().map(|ch| Box::new(ch)).collect());
    let conf = Configuration::new_std(tape.clone()).unwrap();

    assert_eq!(conf.len(), tape.len());

    let mut conf = conf.clone();
    conf.shift(Move::Right, Box::new('!')); // test!
                                                 // ----^
    assert_eq!(conf.len(), tape.len() + 1);
}

#[test]
fn state_configuration_state_independence_boxed() {
    // Whatever going on, configuration state must not be changed by self methods
    // It must be changed only by outside

    let tape = Tape::new("test".chars().map(|ch| Box::new(ch)).collect());
    let mut conf = Configuration::new(tape, 0, State(1)).unwrap();

    let _ = conf.index();
    let _ = conf.tape();
    conf.set_symbol(Box::new('T'));
    let _ = conf.get_symbol();

    conf.shift(Move::Right, Box::new(' ')); // Test
                                                 // ^
    conf.shift(Move::Right, Box::new(' ')); // Test
                                                 // -^
    conf.shift(Move::Right, Box::new(' ')); // Test
                                                 // --^
    conf.shift(Move::Right, Box::new(' ')); // Test
                                                 // ---^
    conf.shift(Move::Right, Box::new('!')); // Test!
                                                 // ----^
    let _ = conf.len();

    assert_eq!(conf.state, State(1));
}