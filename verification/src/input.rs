use crate::models::Direction;
use vstd::prelude::*;

verus! {

/// What the player asks for during a round.
#[derive(Clone, Copy, Debug, PartialEq, Eq, Structural)]
pub enum Input {
    Move(Direction),
    Quit,
}

/// What the player asks for after a lost round.
#[derive(Clone, Copy, Debug, PartialEq, Eq, Structural)]
pub enum PostRoundInput {
    PlayAgain,
    Quit,
}

/// What the player asks for in flappy mode.
#[derive(Clone, Copy, Debug, PartialEq, Eq, Structural)]
pub enum FlappyInput {
    Jump,
    Quit,
}

/// A key as the games see it: a character, an arrow, escape, or anything else.
#[derive(Clone, Copy, Debug, PartialEq, Eq, Structural)]
pub enum Key {
    Char(char),
    Up,
    Down,
    Left,
    Right,
    Esc,
    Other,
}

/// The meaning of a key during a round: W, A, S, D (either case) and the arrows move,
/// Q (either case) and escape quit; other keys and key releases mean nothing.
pub open spec fn round_meaning(key: Key, pressed: bool) -> Option<Input> {
    if !pressed {
        None
    } else {
        match key {
            Key::Char(c) => if c == 'w' || c == 'W' {
                Some(Input::Move(Direction::Up))
            } else if c == 'a' || c == 'A' {
                Some(Input::Move(Direction::Left))
            } else if c == 's' || c == 'S' {
                Some(Input::Move(Direction::Down))
            } else if c == 'd' || c == 'D' {
                Some(Input::Move(Direction::Right))
            } else if c == 'q' || c == 'Q' {
                Some(Input::Quit)
            } else {
                None
            },
            Key::Up => Some(Input::Move(Direction::Up)),
            Key::Down => Some(Input::Move(Direction::Down)),
            Key::Left => Some(Input::Move(Direction::Left)),
            Key::Right => Some(Input::Move(Direction::Right)),
            Key::Esc => Some(Input::Quit),
            Key::Other => None,
        }
    }
}

/// The meaning of a key after a lost round: R (either case) plays again, Q (either
/// case) and escape quit; other keys and key releases mean nothing.
pub open spec fn post_round_meaning(key: Key, pressed: bool) -> Option<PostRoundInput> {
    if !pressed {
        None
    } else {
        match key {
            Key::Char(c) => if c == 'r' || c == 'R' {
                Some(PostRoundInput::PlayAgain)
            } else if c == 'q' || c == 'Q' {
                Some(PostRoundInput::Quit)
            } else {
                None
            },
            Key::Esc => Some(PostRoundInput::Quit),
            _ => None,
        }
    }
}

/// The meaning of a key in flappy mode: space jumps, Q (either case) and escape quit; other
/// keys and key releases mean nothing.
pub open spec fn flappy_meaning(key: Key, pressed: bool) -> Option<FlappyInput> {
    if !pressed {
        None
    } else {
        match key {
            Key::Char(c) => if c == ' ' {
                Some(FlappyInput::Jump)
            } else if c == 'q' || c == 'Q' {
                Some(FlappyInput::Quit)
            } else {
                None
            },
            Key::Esc => Some(FlappyInput::Quit),
            _ => None,
        }
    }
}

/// The input a key event stands for in flappy mode, if any.
pub fn flappy_input_for_key(key: Key, pressed: bool) -> (r: Option<FlappyInput>)
    ensures
        r == flappy_meaning(key, pressed),
{
    if !pressed {
        return None;
    }
    match key {
        Key::Char(c) => {
            if c == ' ' {
                Some(FlappyInput::Jump)
            } else if c == 'q' || c == 'Q' {
                Some(FlappyInput::Quit)
            } else {
                None
            }
        },
        Key::Esc => Some(FlappyInput::Quit),
        _ => None,
    }
}

/// The input a key event stands for during a round, if any.
pub fn input_for_key(key: Key, pressed: bool) -> (r: Option<Input>)
    ensures
        r == round_meaning(key, pressed),
{
    if !pressed {
        return None;
    }
    match key {
        Key::Char(c) => {
            if c == 'w' || c == 'W' {
                Some(Input::Move(Direction::Up))
            } else if c == 'a' || c == 'A' {
                Some(Input::Move(Direction::Left))
            } else if c == 's' || c == 'S' {
                Some(Input::Move(Direction::Down))
            } else if c == 'd' || c == 'D' {
                Some(Input::Move(Direction::Right))
            } else if c == 'q' || c == 'Q' {
                Some(Input::Quit)
            } else {
                None
            }
        },
        Key::Up => Some(Input::Move(Direction::Up)),
        Key::Down => Some(Input::Move(Direction::Down)),
        Key::Left => Some(Input::Move(Direction::Left)),
        Key::Right => Some(Input::Move(Direction::Right)),
        Key::Esc => Some(Input::Quit),
        Key::Other => None,
    }
}

/// The answer a key event stands for after a lost round, if any.
pub fn post_round_for_key(key: Key, pressed: bool) -> (r: Option<PostRoundInput>)
    ensures
        r == post_round_meaning(key, pressed),
{
    if !pressed {
        return None;
    }
    match key {
        Key::Char(c) => {
            if c == 'r' || c == 'R' {
                Some(PostRoundInput::PlayAgain)
            } else if c == 'q' || c == 'Q' {
                Some(PostRoundInput::Quit)
            } else {
                None
            }
        },
        Key::Esc => Some(PostRoundInput::Quit),
        _ => None,
    }
}

/// A letter means the same in either case, and each movement letter means what its arrow
/// means: W and the up arrow move up, A and the left arrow left, S and the down arrow down,
/// D and the right arrow right; Q quits as escape does; R plays again after a round.
pub proof fn lemma_letters_match_arrows(pressed: bool)
    ensures
        round_meaning(Key::Char('w'), pressed) == round_meaning(Key::Up, pressed),
        round_meaning(Key::Char('W'), pressed) == round_meaning(Key::Up, pressed),
        round_meaning(Key::Char('a'), pressed) == round_meaning(Key::Left, pressed),
        round_meaning(Key::Char('A'), pressed) == round_meaning(Key::Left, pressed),
        round_meaning(Key::Char('s'), pressed) == round_meaning(Key::Down, pressed),
        round_meaning(Key::Char('S'), pressed) == round_meaning(Key::Down, pressed),
        round_meaning(Key::Char('d'), pressed) == round_meaning(Key::Right, pressed),
        round_meaning(Key::Char('D'), pressed) == round_meaning(Key::Right, pressed),
        round_meaning(Key::Char('q'), pressed) == round_meaning(Key::Esc, pressed),
        round_meaning(Key::Char('Q'), pressed) == round_meaning(Key::Esc, pressed),
        post_round_meaning(Key::Char('q'), pressed) == post_round_meaning(Key::Esc, pressed),
        post_round_meaning(Key::Char('Q'), pressed) == post_round_meaning(Key::Esc, pressed),
        post_round_meaning(Key::Char('r'), pressed) == post_round_meaning(Key::Char('R'), pressed),
        flappy_meaning(Key::Char('q'), pressed) == flappy_meaning(Key::Esc, pressed),
        flappy_meaning(Key::Char('Q'), pressed) == flappy_meaning(Key::Esc, pressed),
{
}

/// A pressed arrow moves one way each, escape quits in every phase, and a released key
/// means nothing.
pub proof fn lemma_arrows_and_release(key: Key)
    ensures
        round_meaning(Key::Up, true) == Some(Input::Move(Direction::Up)),
        round_meaning(Key::Down, true) == Some(Input::Move(Direction::Down)),
        round_meaning(Key::Left, true) == Some(Input::Move(Direction::Left)),
        round_meaning(Key::Right, true) == Some(Input::Move(Direction::Right)),
        round_meaning(Key::Esc, true) == Some(Input::Quit),
        post_round_meaning(Key::Esc, true) == Some(PostRoundInput::Quit),
        flappy_meaning(Key::Esc, true) == Some(FlappyInput::Quit),
        round_meaning(key, false) is None,
        post_round_meaning(key, false) is None,
        flappy_meaning(key, false) is None,
{
}

/// A letter key means the same in lower and in upper case, in every phase.
pub proof fn lemma_case_blind(c: char, pressed: bool)
    requires
        'a' <= c <= 'z',
    ensures
        round_meaning(Key::Char(c), pressed) == round_meaning(Key::Char(((c as u32) - 32) as char), pressed),
        post_round_meaning(Key::Char(c), pressed) == post_round_meaning(Key::Char(((c as u32) - 32) as char), pressed),
        flappy_meaning(Key::Char(c), pressed) == flappy_meaning(Key::Char(((c as u32) - 32) as char), pressed),
{
}

} // verus!
