//! The keyboard: which keys roll the ball and which one makes it jump.

use vstd::prelude::*;

use crate::physics::WorldView;
use crate::protocol::{InputMsg, InputView, HELD_BACK, HELD_FORWARD, HELD_LEFT, HELD_RIGHT};
use crate::text::same;

verus! {

/// The held bit that a key drives.
pub open spec fn mask_of(key: Seq<char>) -> Option<u32> {
    if key == "w"@ || key == "W"@ || key == "ArrowUp"@ {
        Some(HELD_FORWARD)
    } else if key == "s"@ || key == "S"@ || key == "ArrowDown"@ {
        Some(HELD_BACK)
    } else if key == "a"@ || key == "A"@ || key == "ArrowLeft"@ {
        Some(HELD_LEFT)
    } else if key == "d"@ || key == "D"@ || key == "ArrowRight"@ {
        Some(HELD_RIGHT)
    } else {
        None
    }
}

/// Whether a key is the one that jumps.
pub open spec fn is_jump(key: Seq<char>) -> bool {
    key == " "@ || key == "Spacebar"@
}

/// The held bit that a key drives.
pub fn key_mask(key: &str) -> (r: Option<u32>)
    ensures
        r == mask_of(key@),
{
    if same(key, "w") || same(key, "W") || same(key, "ArrowUp") {
        Some(HELD_FORWARD)
    } else if same(key, "s") || same(key, "S") || same(key, "ArrowDown") {
        Some(HELD_BACK)
    } else if same(key, "a") || same(key, "A") || same(key, "ArrowLeft") {
        Some(HELD_LEFT)
    } else if same(key, "d") || same(key, "D") || same(key, "ArrowRight") {
        Some(HELD_RIGHT)
    } else {
        None
    }
}

/// What a key press leads to.
#[derive(Debug, Clone, Copy)]
pub struct KeyAction {
    pub send: Option<InputMsg>,
    /// The page must not act on the key.
    pub prevent_default: bool,
}

/// What a key press leads to: the jump key jumps unless it repeats, the others hold.
pub open spec fn press_of(key: Seq<char>, repeat: bool) -> KeyAction {
    if is_jump(key) {
        KeyAction {
            send: if repeat {
                None
            } else {
                Some(InputMsg::Jump)
            },
            prevent_default: true,
        }
    } else {
        KeyAction {
            send: match mask_of(key) {
                Some(mask) => Some(InputMsg::Held { mask, down: true }),
                None => None,
            },
            prevent_default: false,
        }
    }
}

/// What a key release leads to.
pub open spec fn release_of(key: Seq<char>) -> Option<InputMsg> {
    match mask_of(key) {
        Some(mask) => Some(InputMsg::Held { mask, down: false }),
        None => None,
    }
}

/// What a key press leads to.
pub fn key_down(key: &str, repeat: bool) -> (r: KeyAction)
    ensures
        r == press_of(key@, repeat),
{
    if same(key, " ") || same(key, "Spacebar") {
        return KeyAction {
            send: if repeat {
                None
            } else {
                Some(InputMsg::Jump)
            },
            prevent_default: true,
        };
    }
    KeyAction {
        send: match key_mask(key) {
            Some(mask) => Some(InputMsg::Held { mask, down: true }),
            None => None,
        },
        prevent_default: false,
    }
}

/// What a key release leads to.
pub fn key_up(key: &str) -> (r: Option<InputMsg>)
    ensures
        r == release_of(key@),
{
    match key_mask(key) {
        Some(mask) => Some(InputMsg::Held { mask, down: false }),
        None => None,
    }
}

/// The jump key is no direction key.
pub proof fn jumping_is_not_rolling(key: Seq<char>)
    requires
        is_jump(key),
    ensures
        mask_of(key) is None,
{
    reveal_strlit(" ");
    reveal_strlit("Spacebar");
    reveal_strlit("w");
    reveal_strlit("W");
    reveal_strlit("ArrowUp");
    reveal_strlit("s");
    reveal_strlit("S");
    reveal_strlit("ArrowDown");
    reveal_strlit("a");
    reveal_strlit("A");
    reveal_strlit("ArrowLeft");
    reveal_strlit("d");
    reveal_strlit("D");
    reveal_strlit("ArrowRight");
    if key == " "@ {
        assert(key[0] == ' ');
        assert("w"@[0] == 'w' && "W"@[0] == 'W' && "s"@[0] == 's' && "S"@[0] == 'S');
        assert("a"@[0] == 'a' && "A"@[0] == 'A' && "d"@[0] == 'd' && "D"@[0] == 'D');
        assert("ArrowUp"@[0] == 'A' && "ArrowDown"@[0] == 'A');
        assert("ArrowLeft"@[0] == 'A' && "ArrowRight"@[0] == 'A');
    } else {
        assert(key[0] == 'S' && key.len() == 8);
        assert("w"@[0] == 'w' && "W"@[0] == 'W' && "s"@[0] == 's' && "S"@.len() == 1);
        assert("a"@[0] == 'a' && "A"@[0] == 'A' && "d"@[0] == 'd' && "D"@[0] == 'D');
        assert("ArrowUp"@[0] == 'A' && "ArrowDown"@[0] == 'A');
        assert("ArrowLeft"@[0] == 'A' && "ArrowRight"@[0] == 'A');
    }
}

/// Letting go of a direction key takes back what pressing it did: the bit it set is clear,
/// and no other bit is touched.
pub proof fn letting_go_takes_a_press_back(key: Seq<char>, input: InputView, other: u32)
    requires
        mask_of(key) is Some,
        other & mask_of(key)->0 == 0,
    ensures
        ({
            let mask = mask_of(key)->0;
            let after = input.with_held(mask, true).with_held(mask, false);
            &&& after.held & mask == 0
            &&& after.held & other == input.held & other
        }),
{
    let mask = mask_of(key)->0;
    let h = input.held;
    let after = input.with_held(mask, true).with_held(mask, false).held;
    assert(((h | mask) & !mask) & mask == 0) by (bit_vector);
    assert(((h | mask) & !mask) & other == h & other) by (bit_vector)
        requires
            other & mask == 0,
    ;
    assert(after == (h | mask) & !mask);
}

/// Every direction has its own bit.
pub proof fn directions_have_their_own_bits()
    ensures
        HELD_FORWARD & HELD_BACK == 0,
        HELD_FORWARD & HELD_LEFT == 0,
        HELD_FORWARD & HELD_RIGHT == 0,
        HELD_BACK & HELD_LEFT == 0,
        HELD_BACK & HELD_RIGHT == 0,
        HELD_LEFT & HELD_RIGHT == 0,
{
    assert(1u32 & 2u32 == 0 && 1u32 & 4u32 == 0 && 1u32 & 8u32 == 0 && 2u32 & 4u32 == 0 && 2u32
        & 8u32 == 0 && 4u32 & 8u32 == 0) by (bit_vector);
}

proof fn keys_differ()
    ensures
        "w"@.len() == 1 && "w"@[0] == 'w',
        "W"@.len() == 1 && "W"@[0] == 'W',
        "s"@.len() == 1 && "s"@[0] == 's',
        "S"@.len() == 1 && "S"@[0] == 'S',
        "a"@.len() == 1 && "a"@[0] == 'a',
        "A"@.len() == 1 && "A"@[0] == 'A',
        "d"@.len() == 1 && "d"@[0] == 'd',
        "D"@.len() == 1 && "D"@[0] == 'D',
        " "@.len() == 1 && " "@[0] == ' ',
        "ArrowUp"@.len() == 7 && "ArrowUp"@[5] == 'U',
        "ArrowDown"@.len() == 9 && "ArrowDown"@[5] == 'D',
        "ArrowLeft"@.len() == 9 && "ArrowLeft"@[5] == 'L',
        "ArrowRight"@.len() == 10 && "ArrowRight"@[5] == 'R',
        "Spacebar"@.len() == 8,
{
    reveal_strlit(" ");
    reveal_strlit("Spacebar");
    reveal_strlit("w");
    reveal_strlit("W");
    reveal_strlit("ArrowUp");
    reveal_strlit("s");
    reveal_strlit("S");
    reveal_strlit("ArrowDown");
    reveal_strlit("a");
    reveal_strlit("A");
    reveal_strlit("ArrowLeft");
    reveal_strlit("d");
    reveal_strlit("D");
    reveal_strlit("ArrowRight");
}

/// Each key rolls the ball its own way, from the press to the push: W and the upper arrow away from
/// the camera, S and the lower one towards it, A and the left one to the left, D and the right one
/// to the right. Letting go ends the push, and no other key pushes.
pub proof fn keys_roll_the_ball_their_way(key: Seq<char>, repeat: bool, w: WorldView, input: InputView)
    requires
        input.held == 0,
    ensures
        ({
            let up = key == "w"@ || key == "W"@ || key == "ArrowUp"@;
            let down = key == "s"@ || key == "S"@ || key == "ArrowDown"@;
            let left = key == "a"@ || key == "A"@ || key == "ArrowLeft"@;
            let right = key == "d"@ || key == "D"@ || key == "ArrowRight"@;
            &&& up || down || left || right ==> {
                &&& !press_of(key, repeat).prevent_default
                &&& press_of(key, repeat).send matches Some(InputMsg::Held { mask, down: on }) && on
                    && release_of(key) == Some(InputMsg::Held { mask, down: false }) && {
                    let a = w.actions(input.with_held(mask, true));
                    let b = w.actions(input.with_held(mask, true).with_held(mask, false));
                    &&& up ==> a.dir_x == 0 && a.dir_z == -1
                    &&& down ==> a.dir_x == 0 && a.dir_z == 1
                    &&& left ==> a.dir_x == -1 && a.dir_z == 0
                    &&& right ==> a.dir_x == 1 && a.dir_z == 0
                    &&& b.dir_x == 0 && b.dir_z == 0
                }
            }
            &&& !(up || down || left || right) ==> release_of(key) is None && (key != " "@ && key
                != "Spacebar"@ ==> press_of(key, repeat).send is None)
        }),
{
    keys_differ();
    let none = 0u32;
    assert(none | 1 == 1 && none | 2 == 2 && none | 4 == 4 && none | 8 == 8) by (bit_vector)
        requires
            none == 0,
    ;
    assert(1u32 & !1u32 == 0 && 2u32 & !2u32 == 0 && 4u32 & !4u32 == 0 && 8u32 & !8u32 == 0)
        by (bit_vector);
    assert(0u32 & 1u32 == 0 && 0u32 & 2u32 == 0 && 0u32 & 4u32 == 0 && 0u32 & 8u32 == 0)
        by (bit_vector);
    if let Some(mask) = mask_of(key) {
        let on = input.with_held(mask, true);
        crate::physics::laws::keys_push_their_own_way(w, on, on);
        crate::physics::laws::keys_push_their_own_way(w, on.with_held(mask, false), on);
    }
}

/// The space bar jumps once per press, however long it is held, and the page does not scroll by it.
pub proof fn the_space_bar_jumps_once_per_press(key: Seq<char>)
    requires
        key == " "@ || key == "Spacebar"@,
    ensures
        press_of(key, false).send == Some(InputMsg::Jump),
        press_of(key, true).send is None,
        press_of(key, false).prevent_default && press_of(key, true).prevent_default,
        release_of(key) is None,
{
    jumping_is_not_rolling(key);
}

} // verus!
