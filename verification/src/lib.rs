//! Simulation core of a small character-cell arcade shooter.
//!
//! The engine advances a fixed-size world of one player, up to ten enemies
//! and a pool of projectiles, one tick at a time, and maps discrete key
//! events to player actions.  Drawing and keyboard decoding are left to the
//! host around the library.

use vstd::prelude::*;

pub mod engine;
pub mod entities;
pub mod keys;
pub mod letters;
pub mod render;
pub mod rng;

pub use engine::GamePlayer;
pub use engine::ENEMY_COUNT;
pub use engine::START_HEALTH;
pub use entities::EnemyObj;
pub use entities::PlayerObj;
pub use entities::Projectile;
pub use keys::KeyInput;
pub use keys::RawKey;
pub use letters::LetterMover;

verus! {

/// Number of character cells in a display row.
pub const BUFFER_WIDTH: usize = 80;

/// Number of character rows on the display.
pub const BUFFER_HEIGHT: usize = 25;

/// One column step to the left with wraparound at the left edge.
pub open spec fn wrap_left(c: int, w: int) -> int {
    if c == 0 {
        w - 1
    } else {
        c - 1
    }
}

/// One column step to the right with wraparound at the right edge.
pub open spec fn wrap_right(c: int, w: int) -> int {
    if c == w - 1 {
        0
    } else {
        c + 1
    }
}

/// Moving one step left and then one step right lands back on the same
/// column, for every column of the display.
pub proof fn lemma_wrap_round_trip(c: int, w: int)
    requires
        0 <= c < w,
    ensures
        wrap_right(wrap_left(c, w), w) == c,
{
}

/// Adds `a` and `b` modulo `LIMIT`.
pub fn safe_add<const LIMIT: usize>(a: usize, b: usize) -> (r: usize)
    requires
        LIMIT > 0,
        a + b <= usize::MAX,
    ensures
        r == (a + b) % (LIMIT as int),
{
    (a + b) % LIMIT
}

/// Advances a value by one modulo `LIMIT`; from `LIMIT - 1` it wraps to 0.
pub fn add1<const LIMIT: usize>(value: usize) -> (r: usize)
    requires
        LIMIT > 0,
        value < usize::MAX,
    ensures
        r == (value + 1) % (LIMIT as int),
        value < LIMIT ==> r == wrap_right(value as int, LIMIT as int),
{
    let r = safe_add::<LIMIT>(value, 1);
    proof {
        if value < LIMIT {
            if value == LIMIT - 1 {
                vstd::arithmetic::div_mod::lemma_mod_self_0(LIMIT as int);
            } else {
                vstd::arithmetic::div_mod::lemma_small_mod((value + 1) as nat, LIMIT as nat);
            }
        }
    }
    r
}

/// Retreats a value by one modulo `LIMIT`; from 0 it wraps to `LIMIT - 1`.
pub fn sub1<const LIMIT: usize>(value: usize) -> (r: usize)
    requires
        LIMIT > 0,
        value + LIMIT - 1 <= usize::MAX,
    ensures
        r == (value + LIMIT - 1) % (LIMIT as int),
        value < LIMIT ==> r == wrap_left(value as int, LIMIT as int),
{
    let r = safe_add::<LIMIT>(value, LIMIT - 1);
    proof {
        if value < LIMIT {
            if value == 0 {
                vstd::arithmetic::div_mod::lemma_small_mod((LIMIT - 1) as nat, LIMIT as nat);
            } else {
                vstd::arithmetic::div_mod::lemma_mod_add_multiples_vanish(
                    value - 1,
                    LIMIT as int,
                );
                vstd::arithmetic::div_mod::lemma_small_mod((value - 1) as nat, LIMIT as nat);
                assert(value + LIMIT - 1 == (LIMIT as int) + (value - 1));
            }
        }
    }
    r
}

} // verus!
