//! The three entity records of the game world.
//!
//! Each enemy and projectile lives in a fixed slot of the engine's arrays;
//! the slot index doubles as the entity's stable id.  Glyph sequences have
//! odd length by construction, so every sprite has a well-defined middle
//! cell to centre on.

use vstd::prelude::*;

verus! {

use crate::BUFFER_HEIGHT;
use crate::BUFFER_WIDTH;

/// The player ship: a three-glyph sprite centred on `pos_x`.
pub struct PlayerObj {
    pub pos_x: usize,
    pub pos_y: usize,
    pub characters: [char; 3],
}

/// One enemy slot.  `alive` marks whether the slot currently holds a live
/// enemy; `move_delay` counts ticks down to the next step and is re-armed
/// from `max_delay` after each step.
#[derive(Clone, Copy)]
pub struct EnemyObj {
    pub id: usize,
    pub move_delay: usize,
    pub max_delay: usize,
    pub alive: bool,
    pub pos_x: usize,
    pub pos_y: usize,
    pub characters: [char; 5],
}

/// One projectile slot: a single glyph travelling up the display.
#[derive(Clone, Copy)]
pub struct Projectile {
    pub id: usize,
    pub glyph: char,
    pub active: bool,
    pub pos_x: usize,
    pub pos_y: usize,
}

/// The glyphs of the player sprite.
pub open spec fn player_glyphs() -> Seq<char> {
    seq!['/', '|', '\\']
}

/// The glyphs of an enemy sprite.
pub open spec fn enemy_glyphs() -> Seq<char> {
    seq!['<', '#', '.', '#', '>']
}

impl Default for PlayerObj {
    /// The player starts on the middle column, two rows above the bottom.
    fn default() -> (d: Self)
        ensures
            d.pos_x == BUFFER_WIDTH / 2,
            d.pos_y == BUFFER_HEIGHT - 2,
            d.characters@ == player_glyphs(),
    {
        let d = PlayerObj {
            pos_x: BUFFER_WIDTH / 2,
            pos_y: BUFFER_HEIGHT - 2,
            characters: ['/', '|', '\\'],
        };
        proof {
            assert(d.characters@ =~= player_glyphs());
        }
        d
    }
}

impl Default for EnemyObj {
    /// An enemy slot starts empty at the top left corner.
    fn default() -> (d: Self)
        ensures
            d.id == 0,
            d.move_delay == 10,
            d.max_delay == 10,
            !d.alive,
            d.pos_x == 0,
            d.pos_y == 0,
            d.characters@ == enemy_glyphs(),
    {
        let d = EnemyObj {
            id: 0,
            move_delay: 10,
            max_delay: 10,
            alive: false,
            pos_x: 0,
            pos_y: 0,
            characters: ['<', '#', '.', '#', '>'],
        };
        proof {
            assert(d.characters@ =~= enemy_glyphs());
        }
        d
    }
}

impl Default for Projectile {
    /// A projectile slot starts inactive at the top left corner.
    fn default() -> (d: Self)
        ensures
            d.id == 0,
            d.glyph == '*',
            !d.active,
            d.pos_x == 0,
            d.pos_y == 0,
    {
        Projectile { id: 0, glyph: '*', active: false, pos_x: 0, pos_y: 0 }
    }
}

impl Projectile {
    /// Gives the projectile a new slot id.
    pub fn change_id(&mut self, new_id: usize)
        ensures
            *final(self) == (Projectile { id: new_id, ..*old(self) }),
    {
        self.id = new_id;
    }

    /// Moves the projectile to column `new_pos`.
    pub fn update_pos_y(&mut self, new_pos: usize)
        ensures
            *final(self) == (Projectile { pos_x: new_pos, ..*old(self) }),
    {
        self.pos_x = new_pos;
    }
}

} // verus!
