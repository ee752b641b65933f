use vstd::prelude::*;

verus! {

/// How a character currently moves on the ground.
#[derive(Debug, Clone, Copy, PartialEq, Eq, Structural)]
pub enum MovementStates {
    Walking,
    Sprinting,
}

impl MovementStates {
    /// The state that the sprint toggle switches to.
    pub open spec fn toggled_spec(self) -> MovementStates {
        match self {
            MovementStates::Walking => MovementStates::Sprinting,
            MovementStates::Sprinting => MovementStates::Walking,
        }
    }

    /// Switches between walking and sprinting.
    pub fn toggled(&self) -> (next: MovementStates)
        ensures
            next == self.toggled_spec(),
    {
        match self {
            MovementStates::Walking => MovementStates::Sprinting,
            MovementStates::Sprinting => MovementStates::Walking,
        }
    }
}

impl MovementStates {
    /// The ground speed for this state: the sprint speed while sprinting, the
    /// base speed while walking.
    pub fn select_speed<T>(&self, base_speed: T, sprint_speed: T) -> (speed: T)
        ensures
            speed == (match self {
                MovementStates::Walking => base_speed,
                MovementStates::Sprinting => sprint_speed,
            }),
    {
        match self {
            MovementStates::Sprinting => sprint_speed,
            MovementStates::Walking => base_speed,
        }
    }
}

impl Default for MovementStates {
    /// A character starts out walking.
    fn default() -> (s: MovementStates)
        ensures
            s == MovementStates::Walking,
    {
        MovementStates::Walking
    }
}

/// The keys that steer the player during one frame.
#[derive(Debug, Clone, Copy, PartialEq, Eq, Structural)]
pub struct KeyState {
    /// `A` is held.
    pub key_a: bool,
    /// The left arrow is held.
    pub arrow_left: bool,
    /// `D` is held.
    pub key_d: bool,
    /// The right arrow is held.
    pub arrow_right: bool,
    /// `W` is held.
    pub key_w: bool,
    /// The up arrow is held.
    pub arrow_up: bool,
    /// `S` is held.
    pub key_s: bool,
    /// The down arrow is held.
    pub arrow_down: bool,
    /// Space was released this frame.
    pub space_released: bool,
    /// The left shift key was released this frame.
    pub shift_left_released: bool,
    /// The right shift key was released this frame.
    pub shift_right_released: bool,
}

/// What the keys of one frame ask for.
#[derive(Debug, Clone, Copy, PartialEq, Eq, Structural)]
pub struct InputOutcome {
    /// Sideways direction: -1 left, 1 right.
    pub x: i8,
    /// Upward direction: 1 when a jump is asked for.
    pub y: i8,
    /// Forward direction: -1 forward, 1 backward.
    pub z: i8,
    /// The movement state after the sprint toggle.
    pub state: MovementStates,
    /// The mouse look is to be reset.
    pub reset_view: bool,
}

/// One axis of the direction: one step down when the negative key is held,
/// one step up when the positive key is held.
pub open spec fn axis(negative: bool, positive: bool) -> int {
    (if positive {
        1int
    } else {
        0int
    }) - (if negative {
        1int
    } else {
        0int
    })
}

/// The outcome of the keys `keys` for a player in state `state`.
pub open spec fn handle_keys_spec(keys: KeyState, state: MovementStates) -> InputOutcome {
    InputOutcome {
        x: axis(keys.key_a || keys.arrow_left, keys.key_d || keys.arrow_right) as i8,
        y: if keys.space_released {
            1
        } else {
            0
        },
        z: axis(keys.key_w || keys.arrow_up, keys.key_s || keys.arrow_down) as i8,
        state: if keys.shift_left_released {
            state.toggled_spec()
        } else {
            state
        },
        reset_view: keys.shift_right_released,
    }
}

/// Turns the keys of one frame into a direction, the new movement state and
/// whether the view is reset: `A` or left moves left, `D` or right moves
/// right, `W` or up moves forward, `S` or down moves backward, releasing space
/// jumps, releasing left shift toggles sprinting and releasing right shift
/// resets the view.
pub fn handle_keys(keys: &KeyState, state: MovementStates) -> (outcome: InputOutcome)
    ensures
        outcome == handle_keys_spec(*keys, state),
        -1 <= outcome.x <= 1,
        0 <= outcome.y <= 1,
        -1 <= outcome.z <= 1,
        (keys.key_a || keys.arrow_left) && (keys.key_d || keys.arrow_right) ==> outcome.x == 0,
        (keys.key_w || keys.arrow_up) && (keys.key_s || keys.arrow_down) ==> outcome.z == 0,
        !keys.shift_left_released ==> outcome.state == state,
        outcome.reset_view == keys.shift_right_released,
        outcome.state == state <==> !keys.shift_left_released,
        outcome.y == 1 <==> keys.space_released,
        outcome.x == 1 <==> (keys.key_d || keys.arrow_right) && !(keys.key_a || keys.arrow_left),
        outcome.x == -1 <==> (keys.key_a || keys.arrow_left) && !(keys.key_d || keys.arrow_right),
        outcome.z == 1 <==> (keys.key_s || keys.arrow_down) && !(keys.key_w || keys.arrow_up),
        outcome.z == -1 <==> (keys.key_w || keys.arrow_up) && !(keys.key_s || keys.arrow_down),
{
    let mut x: i8 = 0;
    let mut y: i8 = 0;
    let mut z: i8 = 0;
    if keys.key_a || keys.arrow_left {
        x = x - 1;
    }
    if keys.key_d || keys.arrow_right {
        x = x + 1;
    }
    if keys.key_w || keys.arrow_up {
        z = z - 1;
    }
    if keys.key_s || keys.arrow_down {
        z = z + 1;
    }
    if keys.space_released {
        y = y + 1;
    }
    let next = if keys.shift_left_released {
        state.toggled()
    } else {
        state
    };
    InputOutcome { x, y, z, state: next, reset_view: keys.shift_right_released }
}

/// What the keys of a frame ask for: only a released right shift resets the
/// view; the state changes exactly when left shift is released; a jump is
/// asked for exactly when space is released; and the player moves one step
/// along an axis exactly when the keys of that side, and not those of the
/// opposite side, are held.
pub proof fn lemma_key_laws(keys: KeyState, state: MovementStates)
    ensures
        handle_keys_spec(keys, state).reset_view == keys.shift_right_released,
        handle_keys_spec(keys, state).state == state <==> !keys.shift_left_released,
        handle_keys_spec(keys, state).y == 1 <==> keys.space_released,
        handle_keys_spec(keys, state).y == 0 <==> !keys.space_released,
        handle_keys_spec(keys, state).x == 1 <==> (keys.key_d || keys.arrow_right) && !(keys.key_a
            || keys.arrow_left),
        handle_keys_spec(keys, state).x == -1 <==> (keys.key_a || keys.arrow_left) && !(keys.key_d
            || keys.arrow_right),
        handle_keys_spec(keys, state).x == 0 <==> ((keys.key_a || keys.arrow_left) == (keys.key_d
            || keys.arrow_right)),
        handle_keys_spec(keys, state).z == 1 <==> (keys.key_s || keys.arrow_down) && !(keys.key_w
            || keys.arrow_up),
        handle_keys_spec(keys, state).z == -1 <==> (keys.key_w || keys.arrow_up) && !(keys.key_s
            || keys.arrow_down),
        handle_keys_spec(keys, state).z == 0 <==> ((keys.key_w || keys.arrow_up) == (keys.key_s
            || keys.arrow_down)),
{
}

/// What happens to the vertical motion of the player in one step.
#[derive(Debug, Clone, Copy, PartialEq, Eq, Structural)]
pub struct VerticalStep {
    /// The player stands on the ground: the coyote timer is rewound and the
    /// vertical speed cleared; otherwise the horizontal motion is damped.
    pub on_ground: bool,
    /// The coyote window is open: the timer runs down this step; otherwise
    /// any rise is cancelled.
    pub coyote_open: bool,
    /// The player jumps: the timer is closed and the jump impulse added.
    pub jump: bool,
}

/// Plans the vertical part of a step. `grounded` is what the character
/// controller reported (nothing when it reported nothing yet, which counts
/// as standing), `coyote_left` says whether the coyote timer was still
/// running, and `rising` whether the player asks to move up. Landing rewinds
/// the timer to a positive time, so it opens the window.
pub fn plan_vertical_step(grounded: Option<bool>, coyote_left: bool, rising: bool) -> (step:
    VerticalStep)
    ensures
        step.on_ground == (match grounded {
            Some(g) => g,
            None => true,
        }),
        step.coyote_open == (step.on_ground || coyote_left),
        step.jump == (step.coyote_open && rising),
        step.jump ==> step.on_ground || coyote_left,
{
    let on_ground = match grounded {
        Some(g) => g,
        None => true,
    };
    let coyote_open = on_ground || coyote_left;
    VerticalStep { on_ground, coyote_open, jump: coyote_open && rising }
}

/// Toggling the sprint state twice gives back the state one started from.
pub proof fn lemma_toggle_twice(s: MovementStates)
    ensures
        s.toggled_spec().toggled_spec() == s,
{
}

} // verus!
