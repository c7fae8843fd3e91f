use vstd::prelude::*;
use crate::game::TurnState;
use crate::util::GridCoords;

verus! {

/// The directions pressed in one frame.
#[derive(Clone, Copy, Debug, Default, PartialEq, Eq, Structural)]
pub struct MovementInput {
    pub up: bool,
    pub down: bool,
    pub left: bool,
    pub right: bool,
}

pub open spec fn axis(pos: bool, neg: bool) -> int {
    (if pos { 1int } else { 0int }) - (if neg { 1int } else { 0int })
}

impl MovementInput {
    /// The step this input asks for; both axes apply at once.
    pub fn as_grid_coords(&self) -> (r: GridCoords)
        ensures
            r.x == axis(self.right, self.left),
            r.y == axis(self.up, self.down),
    {
        GridCoords {
            x: (self.right as i32 - self.left as i32),
            y: (self.up as i32 - self.down as i32),
        }
    }
}

/// The keys the game reads.
#[derive(Clone, Copy, Debug, PartialEq, Eq, Hash, Structural)]
pub enum KeyCode {
    KeyW,
    KeyA,
    KeyS,
    KeyD,
    KeyI,
    KeyJ,
    KeyK,
    KeyL,
    Enter,
    Escape,
}

fn has(keys: &Vec<KeyCode>, k: KeyCode) -> (r: bool)
    ensures
        r == keys@.contains(k),
{
    let mut i: usize = 0;
    while i < keys.len()
        invariant
            i <= keys@.len(),
            forall|j: int| 0 <= j < i ==> keys@[j] != k,
        decreases keys.len() - i,
    {
        if keys[i] == k {
            return true;
        }
        i = i + 1;
    }
    false
}

/// The movement event of a frame, from the keys just pressed and the keys held. The first side
/// steers with W, A, S, D and sends an event when one of them was just pressed; the second steers
/// with I, J, K, L and sends one while one of them is held. An event carries the keys just pressed.
pub open spec fn movement_event_of(
    turn_state: TurnState,
    just_pressed: Seq<KeyCode>,
    pressed: Seq<KeyCode>,
) -> Option<MovementInput> {
    match turn_state {
        TurnState::Player1 => if just_pressed.contains(KeyCode::KeyW) || just_pressed.contains(KeyCode::KeyA)
            || just_pressed.contains(KeyCode::KeyS) || just_pressed.contains(KeyCode::KeyD) {
            Some(
                MovementInput {
                    up: just_pressed.contains(KeyCode::KeyW),
                    down: just_pressed.contains(KeyCode::KeyS),
                    left: just_pressed.contains(KeyCode::KeyA),
                    right: just_pressed.contains(KeyCode::KeyD),
                },
            )
        } else {
            None
        },
        TurnState::Player2 => if pressed.contains(KeyCode::KeyI) || pressed.contains(KeyCode::KeyJ)
            || pressed.contains(KeyCode::KeyK) || pressed.contains(KeyCode::KeyL) {
            Some(
                MovementInput {
                    up: just_pressed.contains(KeyCode::KeyI),
                    down: just_pressed.contains(KeyCode::KeyK),
                    left: just_pressed.contains(KeyCode::KeyJ),
                    right: just_pressed.contains(KeyCode::KeyL),
                },
            )
        } else {
            None
        },
    }
}

/// Turns the side's keys into a movement event.
pub fn movement_events(turn_state: TurnState, just_pressed: &Vec<KeyCode>, pressed: &Vec<KeyCode>) -> (r: Option<
    MovementInput,
>)
    ensures
        r == movement_event_of(turn_state, just_pressed@, pressed@),
{
    match turn_state {
        TurnState::Player1 => {
            if has(just_pressed, KeyCode::KeyW) || has(just_pressed, KeyCode::KeyA) || has(
                just_pressed,
                KeyCode::KeyS,
            ) || has(just_pressed, KeyCode::KeyD) {
                Some(
                    MovementInput {
                        up: has(just_pressed, KeyCode::KeyW),
                        down: has(just_pressed, KeyCode::KeyS),
                        left: has(just_pressed, KeyCode::KeyA),
                        right: has(just_pressed, KeyCode::KeyD),
                    },
                )
            } else {
                None
            }
        },
        TurnState::Player2 => {
            if has(pressed, KeyCode::KeyI) || has(pressed, KeyCode::KeyJ) || has(pressed, KeyCode::KeyK)
                || has(pressed, KeyCode::KeyL) {
                Some(
                    MovementInput {
                        up: has(just_pressed, KeyCode::KeyI),
                        down: has(just_pressed, KeyCode::KeyK),
                        left: has(just_pressed, KeyCode::KeyJ),
                        right: has(just_pressed, KeyCode::KeyL),
                    },
                )
            } else {
                None
            }
        },
    }
}

} // verus!
