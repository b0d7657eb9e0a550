use turing_machine_rs::state::Tape;

fn boxed_tape(text: &str) -> Tape<Box<char>> {
    Tape::new(text.chars().map(|ch| Box::new(ch)).collect())
}


#[test]
fn state_tape_creation() {
    let _: Tape<char> = Tape::from("test");
}

#[test]
fn state_tape_as_vec() {
    let tape: Tape<char> = Tape::from("test");
    let vec = tape.as_vec();

    assert_eq!(*vec, vec!['t', 'e', 's', 't']);
}

#[test]
fn state_tape_get() {
    let tape = Tape::from("test");

    assert_eq!(tape.get(0), Some(&'t'));
    assert_eq!(tape.get(2), Some(&'s'));
}

#[test]
fn state_tape_insert() {
    let mut tape = Tape::from("test");
    tape.insert(0, '0');
    tape.insert(5, '1');

    let expected = Tape::from("0test1");

    assert_eq!(expected, tape);
}

#[test]
fn state_tape_is_empty() {
    let tape: Tape<char> = Tape::from("");
    assert!(tape.is_empty());

    let tape: Tape<char> = Tape::from("_");
    assert!(!tape.is_empty());
}

#[test]
fn state_tape_len() {
    let mut tape = Tape::from("test");
    assert_eq!(tape.len(), 4);

    tape.insert(0, '0');
    assert_eq!(tape.len(), 5);
}

#[test]
fn state_tape_set() {
    let mut tape = Tape::from("test");
    tape.set(0, 'n');
    tape.set(1, 'i');
    tape.set(2, 'c');
    tape.set(3, 'e');

    let expected = Tape::from("nice");

    assert_eq!(expected, tape);
}

#[test]
fn state_tape_to_string() {
    let tape: Tape<char> = Tape::from("test");

    let expected = String::from("test");

    assert_eq!(expected, tape.to_string());
}

#[test]
fn state_tape_from_string() {
    let tape: Tape<char> = Tape::from(String::from("test"));

    let expected = Tape::from("test");

    assert_eq!(expected, tape);
}

#[test]
fn state_tape_from_str() {
    let tape = Tape::from("test");

    let expected = Tape::new("test".chars().collect());

    assert_eq!(expected, tape);
}

#[test]
fn state_tape_creation_boxed() {
    let _: Tape<Box<char>> = boxed_tape("test");
}

#[test]
fn state_tape_as_vec_boxed() {
    let tape: Tape<Box<char>> = boxed_tape("test");
    let vec = tape.as_vec();

    assert_eq!(
        *vec,
        vec![Box::new('t'), Box::new('e'), Box::new('s'), Box::new('t')]
    );
}

#[test]
fn state_tape_get_boxed() {
    let tape = boxed_tape("test");

    assert_eq!(tape.get(0), Some(&Box::new('t')));
    assert_eq!(tape.get(2), Some(&Box::new('s')));
}

#[test]
fn state_tape_insert_boxed() {
    let mut tape = boxed_tape("test");
    tape.insert(0, Box::new('0'));
    tape.insert(5, Box::new('1'));

    let expected = boxed_tape("0test1");

    assert_eq!(expected, tape);
}

#[test]
fn state_tape_is_empty_boxed() {
    let tape: Tape<Box<char>> = boxed_tape("");
    assert!(tape.is_empty());

    let tape: Tape<Box<char>> = boxed_tape("_");
    assert!(!tape.is_empty());
}

#[test]
fn state_tape_len_boxed() {
    let mut tape = boxed_tape("test");
    assert_eq!(tape.len(), 4);

    tape.insert(0, Box::new('0'));
    assert_eq!(tape.len(), 5);
}

#[test]
fn state_tape_set_boxed() {
    let mut tape = boxed_tape("test");
    tape.set(0, Box::new('n'));
    tape.set(1, Box::new('i'));
    tape.set(2, Box::new('c'));
    tape.set(3, Box::new('e'));

    let expected = boxed_tape("nice");

    assert_eq!(expected, tape);
}

#[test]
fn state_tape_from_string_boxed() {
    let tape: Tape<Box<char>> = boxed_tape(&String::from("test"));

    let expected = boxed_tape("test");

    assert_eq!(expected, tape);
}

#[test]
fn state_tape_from_str_boxed() {
    let tape: Tape<Box<char>> = boxed_tape("test");

    let expected = Tape::new(vec![
        Box::new('t'),
        Box::new('e'),
        Box::new('s'),
        Box::new('t'),
    ]);

    assert_eq!(expected, tape);
}