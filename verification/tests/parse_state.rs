use loaf_lang::lang::parse::blocks::state::{Attribute, StatesBlock};

#[test]
fn state_without_attributes() {
    let state: Result<StatesBlock, _> = StatesBlock::parse("state := { A }");
    assert!(state.is_ok()); // Converted successfully
    assert_eq!(state.unwrap(),  {
        let mut states = StatesBlock::new();
        states.insert("A".into(), vec!());
        states
    });
}

#[test]
fn state_with_default() {
    let state: Result<StatesBlock, _> = StatesBlock::parse("state := { A::(default) }");
    assert!(state.is_ok()); // Converted successfully
    assert_eq!(state.unwrap(),  {
        let mut states = StatesBlock::new();
        states.insert("A".into(), vec!(Attribute::Default));
        states
    });
}

#[test]
fn state_with_named_color() {
    let state: Result<StatesBlock, _> = StatesBlock::parse("state := { A::(color=\"white\") }");
    assert!(state.is_ok()); // Converted successfully
    assert_eq!(state.unwrap(),  {
        let mut states = StatesBlock::new();
        states.insert("A".into(), vec!(Attribute::Color(Some((255, 255, 255)))));
        states
    });
}

#[test]
fn state_with_hex_color() {
    let state: Result<StatesBlock, _> = StatesBlock::parse("state := { A::(color=#010203) }");
    assert!(state.is_ok()); // Converted successfully
    assert_eq!(state.unwrap(),  {
        let mut states = StatesBlock::new();
        states.insert("A".into(), vec!(Attribute::Color(Some((1, 2, 3)))));
        states
    });
}

#[test]
fn state_with_color_and_default() {
    let state: Result<StatesBlock, _> = StatesBlock::parse("state := { A::(color=#010203, default) }");
    assert!(state.is_ok()); // Converted successfully
    assert_eq!(state.unwrap(),  {
        let mut states = StatesBlock::new();
        states.insert("A".into(), vec!(
            Attribute::Color(Some((1, 2, 3))),
            Attribute::Default
        ));
        states
    });
}
