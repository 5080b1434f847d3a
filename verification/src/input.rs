//! Movement keys of the local player. Keys come in opposite pairs (left and
//! right, forward and backward, up and down, roll left and roll right); when
//! both keys of a pair are held, the one pressed last has priority.

use vstd::prelude::*;

verus! {

/// The state of one key of an opposite pair.
#[derive(Clone, Copy, Debug, PartialEq, Eq, Structural)]
pub enum OppositeKeyState {
    /// Pressed while its opposite was released.
    PressedFirst,
    /// Pressed while its opposite was also pressed, so it has priority.
    PressedSecond,
    /// Not pressed.
    Released,
}

/// A state a pair of opposite keys can be in: at most one of them pressed
/// second, and only while the other is pressed first.
pub open spec fn valid_pair(a: OppositeKeyState, b: OppositeKeyState) -> bool {
    match (a, b) {
        (OppositeKeyState::Released, OppositeKeyState::Released) => true,
        (OppositeKeyState::PressedFirst, OppositeKeyState::Released) => true,
        (OppositeKeyState::Released, OppositeKeyState::PressedFirst) => true,
        (OppositeKeyState::PressedFirst, OppositeKeyState::PressedSecond) => true,
        (OppositeKeyState::PressedSecond, OppositeKeyState::PressedFirst) => true,
        _ => false,
    }
}

/// Whether a key is held down.
pub open spec fn is_pressed(state: OppositeKeyState) -> bool {
    state != OppositeKeyState::Released
}

/// The new states of a key and its opposite (`(key, other)`) after the key
/// is pressed (`pressed`) or released.
pub open spec fn key_transition(
    key: OppositeKeyState,
    other: OppositeKeyState,
    pressed: bool,
) -> (OppositeKeyState, OppositeKeyState) {
    if pressed {
        match other {
            OppositeKeyState::PressedFirst => (OppositeKeyState::PressedSecond, other),
            OppositeKeyState::PressedSecond => (OppositeKeyState::PressedSecond, OppositeKeyState::PressedFirst),
            OppositeKeyState::Released => (OppositeKeyState::PressedFirst, other),
        }
    } else {
        match other {
            OppositeKeyState::PressedFirst => (OppositeKeyState::Released, other),
            OppositeKeyState::PressedSecond => (OppositeKeyState::Released, OppositeKeyState::PressedFirst),
            OppositeKeyState::Released => (OppositeKeyState::Released, other),
        }
    }
}

/// The states of a key and its opposite after the key is pressed or
/// released.
pub fn handle_key_state(
    key: OppositeKeyState,
    other: OppositeKeyState,
    pressed: bool,
) -> (states: (OppositeKeyState, OppositeKeyState))
    ensures
        states == key_transition(key, other, pressed),
{
    if pressed {
        match other {
            OppositeKeyState::PressedFirst => (OppositeKeyState::PressedSecond, other),
            OppositeKeyState::PressedSecond => (OppositeKeyState::PressedSecond, OppositeKeyState::PressedFirst),
            OppositeKeyState::Released => (OppositeKeyState::PressedFirst, other),
        }
    } else {
        match other {
            OppositeKeyState::PressedFirst => (OppositeKeyState::Released, other),
            OppositeKeyState::PressedSecond => (OppositeKeyState::Released, OppositeKeyState::PressedFirst),
            OppositeKeyState::Released => (OppositeKeyState::Released, other),
        }
    }
}

/// The direction a pair of keys gives: -1 for the negative key, 1 for the
/// positive key, 0 for none.
pub open spec fn axis_value(negative: OppositeKeyState, positive: OppositeKeyState) -> i8 {
    match negative {
        OppositeKeyState::PressedFirst => match positive {
            OppositeKeyState::PressedSecond => 1i8,
            _ => -1i8,
        },
        OppositeKeyState::PressedSecond => -1i8,
        OppositeKeyState::Released => match positive {
            OppositeKeyState::Released => 0i8,
            _ => 1i8,
        },
    }
}

/// The direction a pair of keys gives.
pub fn key_state_to_axis(negative: OppositeKeyState, positive: OppositeKeyState) -> (axis: i8)
    ensures
        axis == axis_value(negative, positive),
{
    match negative {
        OppositeKeyState::PressedFirst => match positive {
            OppositeKeyState::PressedSecond => 1,
            _ => -1,
        },
        OppositeKeyState::PressedSecond => -1,
        OppositeKeyState::Released => match positive {
            OppositeKeyState::Released => 0,
            _ => 1,
        },
    }
}

/// Pressing or releasing a key keeps a pair of keys in a valid state.
pub proof fn lemma_transition_keeps_pair_valid(key: OppositeKeyState, other: OppositeKeyState, pressed: bool)
    requires
        valid_pair(key, other),
    ensures
        valid_pair(key_transition(key, other, pressed).0, key_transition(key, other, pressed).1),
{
}

/// In a valid state the last pressed key of a pair that is still held sets
/// the direction: pressing a key points the axis its way; releasing it hands
/// the axis back to the opposite key if that is held, and otherwise to none.
pub proof fn lemma_last_pressed_key_wins(key: OppositeKeyState, other: OppositeKeyState)
    requires
        valid_pair(key, other),
    ensures
        ({
            let (k, o) = key_transition(key, other, true);
            axis_value(k, o) == -1 && axis_value(o, k) == 1
        }),
        ({
            let (k, o) = key_transition(key, other, false);
            &&& !is_pressed(k)
            &&& axis_value(k, o) == (if is_pressed(other) { 1i8 } else { 0i8 })
        }),
{
}

/// A movement key (by its physical position on a QWERTY keyboard).
#[derive(Clone, Copy, Debug, PartialEq, Eq, Structural)]
pub enum MovementKey {
    A,
    D,
    W,
    S,
    R,
    F,
    Q,
    E,
}

/// The states of the eight movement keys of the local player.
pub struct MovementKeys {
    pub left_state: OppositeKeyState,
    pub right_state: OppositeKeyState,
    pub forward_state: OppositeKeyState,
    pub backward_state: OppositeKeyState,
    pub up_state: OppositeKeyState,
    pub down_state: OppositeKeyState,
    pub roll_left_state: OppositeKeyState,
    pub roll_right_state: OppositeKeyState,
}

impl MovementKeys {
    /// Every pair of opposite keys is in a valid state.
    pub open spec fn valid(&self) -> bool {
        &&& valid_pair(self.left_state, self.right_state)
        &&& valid_pair(self.forward_state, self.backward_state)
        &&& valid_pair(self.up_state, self.down_state)
        &&& valid_pair(self.roll_left_state, self.roll_right_state)
    }

    /// The direction of movement: sideways, vertical and forward.
    pub open spec fn translation_axes(&self) -> (i8, i8, i8) {
        (
            axis_value(self.left_state, self.right_state),
            axis_value(self.up_state, self.down_state),
            axis_value(self.backward_state, self.forward_state),
        )
    }

    /// The direction of roll.
    pub open spec fn roll_axis(&self) -> i8 {
        axis_value(self.roll_left_state, self.roll_right_state)
    }

    /// All keys released.
    pub fn new() -> (keys: MovementKeys)
        ensures
            keys.valid(),
            keys.translation_axes() == (0i8, 0i8, 0i8),
            keys.roll_axis() == 0,
    {
        MovementKeys {
            left_state: OppositeKeyState::Released,
            right_state: OppositeKeyState::Released,
            forward_state: OppositeKeyState::Released,
            backward_state: OppositeKeyState::Released,
            up_state: OppositeKeyState::Released,
            down_state: OppositeKeyState::Released,
            roll_left_state: OppositeKeyState::Released,
            roll_right_state: OppositeKeyState::Released,
        }
    }

    /// A movement key was pressed (`pressed`) or released. `A` drives the
    /// right-hand state and `D` the left-hand one, `W` forward, `S` backward,
    /// `R` up, `F` down, `Q` roll left and `E` roll right; each against its
    /// opposite.
    pub fn handle_key(&mut self, key: MovementKey, pressed: bool)
        requires
            old(self).valid(),
        ensures
            final(self).valid(),
            match key {
                MovementKey::A => (final(self).right_state, final(self).left_state)
                    == key_transition(old(self).right_state, old(self).left_state, pressed),
                MovementKey::D => (final(self).left_state, final(self).right_state)
                    == key_transition(old(self).left_state, old(self).right_state, pressed),
                MovementKey::W => (final(self).forward_state, final(self).backward_state)
                    == key_transition(old(self).forward_state, old(self).backward_state, pressed),
                MovementKey::S => (final(self).backward_state, final(self).forward_state)
                    == key_transition(old(self).backward_state, old(self).forward_state, pressed),
                MovementKey::R => (final(self).up_state, final(self).down_state)
                    == key_transition(old(self).up_state, old(self).down_state, pressed),
                MovementKey::F => (final(self).down_state, final(self).up_state)
                    == key_transition(old(self).down_state, old(self).up_state, pressed),
                MovementKey::Q => (final(self).roll_left_state, final(self).roll_right_state)
                    == key_transition(old(self).roll_left_state, old(self).roll_right_state, pressed),
                MovementKey::E => (final(self).roll_right_state, final(self).roll_left_state)
                    == key_transition(old(self).roll_right_state, old(self).roll_left_state, pressed),
            },
            match key {
                MovementKey::A | MovementKey::D => {
                    &&& final(self).forward_state == old(self).forward_state
                    &&& final(self).backward_state == old(self).backward_state
                    &&& final(self).up_state == old(self).up_state
                    &&& final(self).down_state == old(self).down_state
                    &&& final(self).roll_left_state == old(self).roll_left_state
                    &&& final(self).roll_right_state == old(self).roll_right_state
                },
                MovementKey::W | MovementKey::S => {
                    &&& final(self).left_state == old(self).left_state
                    &&& final(self).right_state == old(self).right_state
                    &&& final(self).up_state == old(self).up_state
                    &&& final(self).down_state == old(self).down_state
                    &&& final(self).roll_left_state == old(self).roll_left_state
                    &&& final(self).roll_right_state == old(self).roll_right_state
                },
                MovementKey::R | MovementKey::F => {
                    &&& final(self).left_state == old(self).left_state
                    &&& final(self).right_state == old(self).right_state
                    &&& final(self).forward_state == old(self).forward_state
                    &&& final(self).backward_state == old(self).backward_state
                    &&& final(self).roll_left_state == old(self).roll_left_state
                    &&& final(self).roll_right_state == old(self).roll_right_state
                },
                MovementKey::Q | MovementKey::E => {
                    &&& final(self).left_state == old(self).left_state
                    &&& final(self).right_state == old(self).right_state
                    &&& final(self).forward_state == old(self).forward_state
                    &&& final(self).backward_state == old(self).backward_state
                    &&& final(self).up_state == old(self).up_state
                    &&& final(self).down_state == old(self).down_state
                },
            },
    {
        match key {
            MovementKey::A => {
                let (k, o) = handle_key_state(self.right_state, self.left_state, pressed);
                self.right_state = k;
                self.left_state = o;
            },
            MovementKey::D => {
                let (k, o) = handle_key_state(self.left_state, self.right_state, pressed);
                self.left_state = k;
                self.right_state = o;
            },
            MovementKey::W => {
                let (k, o) = handle_key_state(self.forward_state, self.backward_state, pressed);
                self.forward_state = k;
                self.backward_state = o;
            },
            MovementKey::S => {
                let (k, o) = handle_key_state(self.backward_state, self.forward_state, pressed);
                self.backward_state = k;
                self.forward_state = o;
            },
            MovementKey::R => {
                let (k, o) = handle_key_state(self.up_state, self.down_state, pressed);
                self.up_state = k;
                self.down_state = o;
            },
            MovementKey::F => {
                let (k, o) = handle_key_state(self.down_state, self.up_state, pressed);
                self.down_state = k;
                self.up_state = o;
            },
            MovementKey::Q => {
                let (k, o) = handle_key_state(self.roll_left_state, self.roll_right_state, pressed);
                self.roll_left_state = k;
                self.roll_right_state = o;
            },
            MovementKey::E => {
                let (k, o) = handle_key_state(self.roll_right_state, self.roll_left_state, pressed);
                self.roll_right_state = k;
                self.roll_left_state = o;
            },
        }
    }

    /// The direction of movement: sideways, vertical and forward; each -1,
    /// 0 or 1.
    pub fn translation(&self) -> (axes: (i8, i8, i8))
        ensures
            axes == self.translation_axes(),
    {
        (
            key_state_to_axis(self.left_state, self.right_state),
            key_state_to_axis(self.up_state, self.down_state),
            key_state_to_axis(self.backward_state, self.forward_state),
        )
    }

    /// The direction of roll: -1, 0 or 1.
    pub fn roll(&self) -> (axis: i8)
        ensures
            axis == self.roll_axis(),
    {
        key_state_to_axis(self.roll_left_state, self.roll_right_state)
    }
}

} // verus!
