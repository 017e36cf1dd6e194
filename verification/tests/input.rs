use cyber_path::input::{Input, Key, PostRoundInput, input_for_key, post_round_for_key};
use cyber_path::models::Direction;

#[test]
fn movement_keys() {
    assert_eq!(input_for_key(Key::Char('w'), true), Some(Input::Move(Direction::Up)));
    assert_eq!(input_for_key(Key::Char('W'), true), Some(Input::Move(Direction::Up)));
    assert_eq!(input_for_key(Key::Char('a'), true), Some(Input::Move(Direction::Left)));
    assert_eq!(input_for_key(Key::Char('S'), true), Some(Input::Move(Direction::Down)));
    assert_eq!(input_for_key(Key::Char('d'), true), Some(Input::Move(Direction::Right)));
    assert_eq!(input_for_key(Key::Up, true), Some(Input::Move(Direction::Up)));
    assert_eq!(input_for_key(Key::Down, true), Some(Input::Move(Direction::Down)));
    assert_eq!(input_for_key(Key::Left, true), Some(Input::Move(Direction::Left)));
    assert_eq!(input_for_key(Key::Right, true), Some(Input::Move(Direction::Right)));
}

#[test]
fn quit_keys_and_ignored_keys() {
    assert_eq!(input_for_key(Key::Char('q'), true), Some(Input::Quit));
    assert_eq!(input_for_key(Key::Esc, true), Some(Input::Quit));
    assert_eq!(input_for_key(Key::Char('Q'), true), Some(Input::Quit));
    assert_eq!(input_for_key(Key::Char('x'), true), None);
    assert_eq!(input_for_key(Key::Other, true), None);
    assert_eq!(input_for_key(Key::Char('w'), false), None);
}

#[test]
fn post_round_keys() {
    assert_eq!(post_round_for_key(Key::Char('r'), true), Some(PostRoundInput::PlayAgain));
    assert_eq!(post_round_for_key(Key::Char('R'), true), Some(PostRoundInput::PlayAgain));
    assert_eq!(post_round_for_key(Key::Char('q'), true), Some(PostRoundInput::Quit));
    assert_eq!(post_round_for_key(Key::Esc, true), Some(PostRoundInput::Quit));
    assert_eq!(post_round_for_key(Key::Char('Q'), true), Some(PostRoundInput::Quit));
    assert_eq!(post_round_for_key(Key::Up, true), None);
    assert_eq!(post_round_for_key(Key::Char('r'), false), None);
}
