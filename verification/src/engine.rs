//! The game-state engine: entity bookkeeping, per-tick movement and
//! collision, spawning, health and input mapping.
//!
//! All entity slots are pre-allocated at construction; a slot's index is the
//! entity's id and never changes.  `tick` advances the simulation one step,
//! `input` applies one key event.  Once health reaches zero the engine is in
//! a terminal state and both calls leave it untouched.

use vstd::prelude::*;

verus! {

use crate::BUFFER_HEIGHT;
use crate::BUFFER_WIDTH;
use crate::entities::EnemyObj;
use crate::entities::PlayerObj;
use crate::entities::Projectile;
use crate::keys::KeyInput;
use crate::keys::RawKey;
use crate::rng::rng_new;
use crate::rng::rng_range;
use crate::wrap_left;
use crate::wrap_right;

/// Number of enemy slots.
pub const ENEMY_COUNT: usize = 10;

/// Health the player starts with.
pub const START_HEALTH: usize = 10;

/// Seed used when no explicit seed is given.
pub const DEFAULT_SEED: u64 = 0x4d595df4d0f33173;

/// How many of the enemies in `s` are alive.
pub open spec fn count_alive(s: Seq<EnemyObj>) -> int
    decreases s.len(),
{
    if s.len() == 0 {
        0
    } else {
        count_alive(s.drop_last()) + if s.last().alive {
            1int
        } else {
            0int
        }
    }
}

/// The smallest index at or after `j` whose enemy slot is free.
pub open spec fn first_inactive_from(s: Seq<EnemyObj>, j: int) -> Option<int>
    decreases s.len() - j,
{
    if j < 0 || j >= s.len() {
        None
    } else if !s[j].alive {
        Some(j)
    } else {
        first_inactive_from(s, j + 1)
    }
}

/// The first free enemy slot, if any.
pub open spec fn first_inactive(s: Seq<EnemyObj>) -> Option<int> {
    first_inactive_from(s, 0)
}

/// The smallest index at or after `j` whose projectile slot is free.
pub open spec fn first_free_proj_from(s: Seq<Projectile>, j: int) -> Option<int>
    decreases s.len() - j,
{
    if j < 0 || j >= s.len() {
        None
    } else if !s[j].active {
        Some(j)
    } else {
        first_free_proj_from(s, j + 1)
    }
}

/// The first free projectile slot, if any.
pub open spec fn first_free_proj(s: Seq<Projectile>) -> Option<int> {
    first_free_proj_from(s, 0)
}

/// The whole engine state.
pub struct GamePlayer {
    pub enemies: Vec<EnemyObj>,
    pub player: PlayerObj,
    pub projectiles: Vec<Projectile>,
    pub tick_count: usize,
    pub tick_delay: usize,
    pub projectile_count: usize,
    pub active_enemies: usize,
    pub health: usize,
    pub rng: oorandom::Rand32,
    pub init: bool,
}

impl GamePlayer {
    /// Well-formedness: the arrays have their fixed sizes, the active-enemy
    /// counter agrees with the alive flags, every position is on the display,
    /// and after initialization each slot's id is its index.
    pub open spec fn wf(&self) -> bool {
        &&& self.enemies@.len() == ENEMY_COUNT
        &&& self.projectiles@.len() == BUFFER_HEIGHT
        &&& self.active_enemies == count_alive(self.enemies@)
        &&& forall|i: int|
            0 <= i < ENEMY_COUNT ==> (#[trigger] self.enemies@[i]).pos_x < BUFFER_WIDTH
                && self.enemies@[i].pos_y < BUFFER_HEIGHT
        &&& forall|i: int|
            0 <= i < BUFFER_HEIGHT ==> (#[trigger] self.projectiles@[i]).pos_x < BUFFER_WIDTH
                && self.projectiles@[i].pos_y < BUFFER_HEIGHT
        &&& self.player.pos_x < BUFFER_WIDTH
        &&& self.player.pos_y == BUFFER_HEIGHT - 2
        &&& self.init ==> forall|i: int|
            0 <= i < ENEMY_COUNT ==> (#[trigger] self.enemies@[i]).id == i
        &&& self.init ==> forall|i: int|
            0 <= i < BUFFER_HEIGHT ==> (#[trigger] self.projectiles@[i]).id == i
    }
}

/// The alive count is between zero and the number of slots.
pub proof fn lemma_count_alive_bounds(s: Seq<EnemyObj>)
    ensures
        0 <= count_alive(s) <= s.len(),
    decreases s.len(),
{
    if s.len() > 0 {
        lemma_count_alive_bounds(s.drop_last());
    }
}

/// Changing one slot changes the alive count by the difference of the two
/// slots' alive flags.
pub proof fn lemma_count_alive_update(s: Seq<EnemyObj>, i: int, e: EnemyObj)
    requires
        0 <= i < s.len(),
    ensures
        count_alive(s.update(i, e)) == count_alive(s) + (if e.alive {
            1int
        } else {
            0int
        }) - (if s[i].alive {
            1int
        } else {
            0int
        }),
    decreases s.len(),
{
    let t = s.update(i, e);
    if i == s.len() - 1 {
        assert(t.drop_last() =~= s.drop_last());
    } else {
        assert(t.drop_last() =~= s.drop_last().update(i, e));
        lemma_count_alive_update(s.drop_last(), i, e);
    }
}

/// An alive slot makes the alive count positive.
pub proof fn lemma_count_alive_pos(s: Seq<EnemyObj>, i: int)
    requires
        0 <= i < s.len(),
        s[i].alive,
    ensures
        count_alive(s) >= 1,
    decreases s.len(),
{
    if i < s.len() - 1 {
        lemma_count_alive_pos(s.drop_last(), i);
        lemma_count_alive_bounds(s.drop_last());
    } else {
        lemma_count_alive_bounds(s.drop_last());
    }
}

/// If every slot is alive, the count equals the length.
pub proof fn lemma_count_alive_all(s: Seq<EnemyObj>)
    requires
        forall|i: int| 0 <= i < s.len() ==> (#[trigger] s[i]).alive,
    ensures
        count_alive(s) == s.len(),
    decreases s.len(),
{
    if s.len() > 0 {
        lemma_count_alive_all(s.drop_last());
    }
}

/// What the first-free scan returns is a free slot, preceded only by live
/// slots.
pub proof fn lemma_first_inactive_from_sound(s: Seq<EnemyObj>, j: int)
    requires
        0 <= j,
    ensures
        first_inactive_from(s, j) matches Some(k) ==> j <= k < s.len() && !s[k].alive && forall|
            m: int,
        | j <= m < k ==> (#[trigger] s[m]).alive,
    decreases s.len() - j,
{
    if j < s.len() && s[j].alive {
        lemma_first_inactive_from_sound(s, j + 1);
    }
}

/// A free slot preceded only by live slots is what the scan returns.
pub proof fn lemma_first_inactive_at(s: Seq<EnemyObj>, j: int, t: int)
    requires
        0 <= t <= j < s.len(),
        !s[j].alive,
        forall|m: int| t <= m < j ==> (#[trigger] s[m]).alive,
    ensures
        first_inactive_from(s, t) == Some(j),
    decreases j - t,
{
    if t < j {
        lemma_first_inactive_at(s, j, t + 1);
    }
}

/// A free projectile slot preceded only by active slots is what the scan
/// returns.
pub proof fn lemma_first_free_proj_at(s: Seq<Projectile>, j: int, t: int)
    requires
        0 <= t <= j < s.len(),
        !s[j].active,
        forall|m: int| t <= m < j ==> (#[trigger] s[m]).active,
    ensures
        first_free_proj_from(s, t) == Some(j),
    decreases j - t,
{
    if t < j {
        lemma_first_free_proj_at(s, j, t + 1);
    }
}

/// When every projectile slot is active, the scan finds nothing.
pub proof fn lemma_first_free_proj_none(s: Seq<Projectile>, t: int)
    requires
        0 <= t,
        forall|m: int| t <= m < s.len() ==> (#[trigger] s[m]).active,
    ensures
        first_free_proj_from(s, t) is None,
    decreases s.len() - t,
{
    if t < s.len() {
        lemma_first_free_proj_none(s, t + 1);
    }
}

/// A freshly constructed engine: uninitialized, full health, empty slot
/// arrays, player centred two rows above the bottom.
pub open spec fn fresh(g: GamePlayer) -> bool {
    &&& g.wf()
    &&& !g.init
    &&& g.health == START_HEALTH
    &&& g.active_enemies == 0
    &&& g.tick_count == 0
    &&& g.tick_delay == 1
    &&& g.projectile_count == 0
    &&& g.player.pos_x == BUFFER_WIDTH / 2
    &&& g.player.pos_y == BUFFER_HEIGHT - 2
    &&& g.player.characters@ == crate::entities::player_glyphs()
    &&& forall|i: int|
        0 <= i < ENEMY_COUNT ==> {
            let e = #[trigger] g.enemies@[i];
            !e.alive && e.id == 0 && e.move_delay == 10 && e.max_delay == 10 && e.pos_x == 0
                && e.pos_y == 0 && e.characters@ == crate::entities::enemy_glyphs()
        }
    &&& forall|i: int|
        0 <= i < BUFFER_HEIGHT ==> {
            let p = #[trigger] g.projectiles@[i];
            !p.active && p.id == 0 && p.glyph == '*' && p.pos_x == 0 && p.pos_y == 0
        }
}

impl GamePlayer {
    /// Builds a fresh engine whose pseudo-random generator is seeded with
    /// `seed`.
    pub fn new(seed: u64) -> (g: GamePlayer)
        ensures
            fresh(g),
    {
        let mut enemies: Vec<EnemyObj> = Vec::new();
        while enemies.len() < ENEMY_COUNT
            invariant
                enemies@.len() <= ENEMY_COUNT,
                count_alive(enemies@) == 0,
                forall|i: int|
                    0 <= i < enemies@.len() ==> {
                        let e = #[trigger] enemies@[i];
                        !e.alive && e.id == 0 && e.move_delay == 10 && e.max_delay == 10
                            && e.pos_x == 0 && e.pos_y == 0 && e.characters@
                            == crate::entities::enemy_glyphs()
                    },
            decreases ENEMY_COUNT - enemies@.len(),
        {
            let ghost prev = enemies@;
            enemies.push(EnemyObj::default());
            proof {
                assert(enemies@.drop_last() =~= prev);
            }
        }
        let mut projectiles: Vec<Projectile> = Vec::new();
        while projectiles.len() < BUFFER_HEIGHT
            invariant
                projectiles@.len() <= BUFFER_HEIGHT,
                forall|i: int|
                    0 <= i < projectiles@.len() ==> {
                        let p = #[trigger] projectiles@[i];
                        !p.active && p.id == 0 && p.glyph == '*' && p.pos_x == 0 && p.pos_y == 0
                    },
            decreases BUFFER_HEIGHT - projectiles@.len(),
        {
            projectiles.push(Projectile::default());
        }
        GamePlayer {
            enemies,
            player: PlayerObj::default(),
            projectiles,
            tick_count: 0,
            tick_delay: 1,
            projectile_count: 0,
            active_enemies: 0,
            health: START_HEALTH,
            rng: rng_new(seed),
            init: false,
        }
    }
}

impl Default for GamePlayer {
    /// A fresh engine with a fixed seed; hosts that want variety seed
    /// `GamePlayer::new` themselves.
    fn default() -> (g: Self)
        ensures
            fresh(g),
    {
        GamePlayer::new(DEFAULT_SEED)
    }
}

/// An enemy slot as the spawner leaves it: alive at the top row, on column
/// `x`, with its countdown re-armed.
pub open spec fn spawned_enemy(e: EnemyObj, x: usize) -> EnemyObj {
    EnemyObj { alive: true, pos_x: x, pos_y: 0, move_delay: e.max_delay, ..e }
}

/// The enemy array after a spawn on column `x`: the first free slot comes
/// alive; with no free slot nothing changes.
pub open spec fn spawn_at(s: Seq<EnemyObj>, x: usize) -> Seq<EnemyObj> {
    match first_inactive(s) {
        Some(j) => s.update(j, spawned_enemy(s[j], x)),
        None => s,
    }
}

impl GamePlayer {
    /// Gives slot `i` its id and movement rate: the countdown and its
    /// re-arm value both become `delay`.
    pub fn arm_enemy(&mut self, i: usize, delay: usize)
        requires
            old(self).wf(),
            i < ENEMY_COUNT,
            3 <= delay <= 9,
        ensures
            final(self).wf(),
            final(self).enemies@ == old(self).enemies@.update(
                i as int,
                (EnemyObj { id: i, max_delay: delay, move_delay: delay, ..old(self).enemies@[
                i as int] }),
            ),
            final(self).player == old(self).player,
            final(self).projectiles == old(self).projectiles,
            final(self).tick_count == old(self).tick_count,
            final(self).tick_delay == old(self).tick_delay,
            final(self).projectile_count == old(self).projectile_count,
            final(self).active_enemies == old(self).active_enemies,
            final(self).health == old(self).health,
            final(self).rng == old(self).rng,
            final(self).init == old(self).init,
    {
        let e = self.enemies[i];
        self.enemies.set(i, EnemyObj { id: i, max_delay: delay, move_delay: delay, ..e });
        proof {
            lemma_count_alive_update(
                old(self).enemies@,
                i as int,
                (EnemyObj { id: i, max_delay: delay, move_delay: delay, ..old(self).enemies@[
                i as int] }),
            );
        }
    }

    /// Brings the first free enemy slot alive on column `x` of the top row.
    /// The caller guards the capacity, so a free slot always exists.
    pub fn spawn_enemy_at(&mut self, x: usize)
        requires
            old(self).wf(),
            old(self).active_enemies < ENEMY_COUNT,
            x < BUFFER_WIDTH,
        ensures
            final(self).wf(),
            final(self).enemies@ == spawn_at(old(self).enemies@, x),
            final(self).active_enemies == old(self).active_enemies + 1,
            final(self).player == old(self).player,
            final(self).projectiles == old(self).projectiles,
            final(self).tick_count == old(self).tick_count,
            final(self).tick_delay == old(self).tick_delay,
            final(self).projectile_count == old(self).projectile_count,
            final(self).health == old(self).health,
            final(self).rng == old(self).rng,
            final(self).init == old(self).init,
    {
        let mut j: usize = 0;
        while j < ENEMY_COUNT && self.enemies[j].alive
            invariant
                old(self).wf(),
                self == old(self),
                j <= ENEMY_COUNT,
                forall|m: int| 0 <= m < j ==> (#[trigger] self.enemies@[m]).alive,
            decreases ENEMY_COUNT - j,
        {
            j = j + 1;
        }
        proof {
            if j == ENEMY_COUNT {
                lemma_count_alive_all(self.enemies@);
                assert(false);
            }
            lemma_first_inactive_at(self.enemies@, j as int, 0);
        }
        let e = self.enemies[j];
        self.enemies.set(
            j,
            EnemyObj { alive: true, pos_x: x, pos_y: 0, move_delay: e.max_delay, ..e },
        );
        self.active_enemies = self.active_enemies + 1;
        proof {
            lemma_count_alive_update(old(self).enemies@, j as int, spawned_enemy(e, x));
        }
    }

    /// Spawns one enemy on a pseudo-random column of the top row.
    pub fn add_enemy(&mut self)
        requires
            old(self).wf(),
            old(self).active_enemies < ENEMY_COUNT,
        ensures
            final(self).wf(),
            exists|x: usize|
                x < BUFFER_WIDTH && final(self).enemies@ == spawn_at(old(self).enemies@, x),
            final(self).active_enemies == old(self).active_enemies + 1,
            final(self).player == old(self).player,
            final(self).projectiles == old(self).projectiles,
            final(self).tick_count == old(self).tick_count,
            final(self).tick_delay == old(self).tick_delay,
            final(self).projectile_count == old(self).projectile_count,
            final(self).health == old(self).health,
            final(self).init == old(self).init,
    {
        let x = rng_range(&mut self.rng, 0, BUFFER_WIDTH as u32);
        let xs = x as usize;
        self.spawn_enemy_at(xs);
        proof {
            assert(xs < BUFFER_WIDTH && final(self).enemies@ == spawn_at(
                old(self).enemies@,
                xs,
            ));
        }
    }

    /// One-time setup on the first `tick` or `input` call: assigns each
    /// slot's id and gives every enemy a pseudo-random movement rate
    /// between 3 and 9 ticks per step.
    pub fn initialize(&mut self)
        requires
            old(self).wf(),
        ensures
            final(self).wf(),
            final(self).init,
            forall|i: int|
                0 <= i < BUFFER_HEIGHT ==> final(self).projectiles@[i] == (Projectile {
                    id: i as usize,
                    ..old(self).projectiles@[i]
                }),
            forall|i: int|
                0 <= i < ENEMY_COUNT ==> {
                    let e = #[trigger] final(self).enemies@[i];
                    let e0 = old(self).enemies@[i];
                    e.id == i && 3 <= e.max_delay <= 9 && e.move_delay == e.max_delay && e.alive
                        == e0.alive && e.pos_x == e0.pos_x && e.pos_y == e0.pos_y && e.characters
                        == e0.characters
                },
            final(self).player == old(self).player,
            final(self).tick_count == old(self).tick_count,
            final(self).tick_delay == old(self).tick_delay,
            final(self).projectile_count == old(self).projectile_count,
            final(self).active_enemies == old(self).active_enemies,
            final(self).health == old(self).health,
    {
        let mut i: usize = 0;
        while i < BUFFER_HEIGHT
            invariant
                old(self).wf(),
                self.projectiles@.len() == BUFFER_HEIGHT,
                i <= BUFFER_HEIGHT,
                forall|j: int|
                    0 <= j < i ==> self.projectiles@[j] == (Projectile {
                        id: j as usize,
                        ..old(self).projectiles@[j]
                    }),
                forall|j: int| i <= j < BUFFER_HEIGHT ==> self.projectiles@[j] == old(self).projectiles@[j],
                self.enemies == old(self).enemies,
                self.player == old(self).player,
                self.tick_count == old(self).tick_count,
                self.tick_delay == old(self).tick_delay,
                self.projectile_count == old(self).projectile_count,
                self.active_enemies == old(self).active_enemies,
                self.health == old(self).health,
                self.rng == old(self).rng,
                self.init == old(self).init,
            decreases BUFFER_HEIGHT - i,
        {
            let p = self.projectiles[i];
            self.projectiles.set(i, Projectile { id: i, ..p });
            i = i + 1;
        }
        let mut k: usize = 0;
        while k < ENEMY_COUNT
            invariant
                old(self).wf(),
                self.wf(),
                self.enemies@.len() == ENEMY_COUNT,
                k <= ENEMY_COUNT,
                forall|j: int|
                    0 <= j < k ==> {
                        let e = #[trigger] self.enemies@[j];
                        let e0 = old(self).enemies@[j];
                        e.id == j && 3 <= e.max_delay <= 9 && e.move_delay == e.max_delay
                            && e.alive == e0.alive && e.pos_x == e0.pos_x && e.pos_y == e0.pos_y
                            && e.characters == e0.characters
                    },
                forall|j: int| k <= j < ENEMY_COUNT ==> self.enemies@[j] == old(self).enemies@[j],
                self.projectiles@.len() == BUFFER_HEIGHT,
                forall|j: int|
                    0 <= j < BUFFER_HEIGHT ==> self.projectiles@[j] == (Projectile {
                        id: j as usize,
                        ..old(self).projectiles@[j]
                    }),
                self.player == old(self).player,
                self.tick_count == old(self).tick_count,
                self.tick_delay == old(self).tick_delay,
                self.projectile_count == old(self).projectile_count,
                self.active_enemies == old(self).active_enemies,
                self.health == old(self).health,
                self.init == old(self).init,
            decreases ENEMY_COUNT - k,
        {
            let d = rng_range(&mut self.rng, 3, 10);
            self.arm_enemy(k, d as usize);
            k = k + 1;
        }
        self.init = true;
    }
}

/// Whether this enemy's countdown runs out this tick, so that it steps.
pub open spec fn enemy_moves(e: EnemyObj) -> bool {
    e.alive && e.move_delay <= 1
}

/// Whether this enemy would step past the last drawable row this tick and
/// so reaches the player's ground line.
pub open spec fn enemy_dies(e: EnemyObj) -> bool {
    enemy_moves(e) && e.pos_y + 1 >= BUFFER_HEIGHT
}

/// One tick of a single enemy: count the delay down; on zero either step
/// one row down and re-arm the countdown, or, at the bottom row, leave the
/// field.
pub open spec fn step_enemy(e: EnemyObj) -> EnemyObj {
    if !e.alive {
        e
    } else if e.move_delay > 1 {
        EnemyObj { move_delay: (e.move_delay - 1) as usize, ..e }
    } else if e.pos_y + 1 < BUFFER_HEIGHT {
        EnemyObj { pos_y: (e.pos_y + 1) as usize, move_delay: e.max_delay, ..e }
    } else {
        EnemyObj { alive: false, move_delay: e.max_delay, ..e }
    }
}

/// How many of the enemies in `s` reach the bottom this tick.
pub open spec fn count_deaths(s: Seq<EnemyObj>) -> int
    decreases s.len(),
{
    if s.len() == 0 {
        0
    } else {
        count_deaths(s.drop_last()) + if enemy_dies(s.last()) {
            1int
        } else {
            0int
        }
    }
}

/// Subtraction that stops at zero, as the health counter does.
pub open spec fn sat_sub(a: int, b: int) -> int {
    if b >= a {
        0
    } else {
        a - b
    }
}

/// Appending a slot adds its own contribution to the death count.
pub proof fn lemma_count_deaths_push(t: Seq<EnemyObj>, e: EnemyObj)
    ensures
        count_deaths(t.push(e)) == count_deaths(t) + if enemy_dies(e) {
            1int
        } else {
            0int
        },
{
    assert(t.push(e).drop_last() =~= t);
    assert(t.push(e).last() == e);
}

impl GamePlayer {
    /// One tick of every enemy, in slot order: countdowns run down, due
    /// enemies step one row, and each enemy stepping off the bottom costs
    /// one health point (health stops at zero) and frees its slot.
    pub fn step_enemies(&mut self)
        requires
            old(self).wf(),
        ensures
            final(self).wf(),
            forall|i: int|
                0 <= i < ENEMY_COUNT ==> #[trigger] final(self).enemies@[i] == step_enemy(
                    old(self).enemies@[i],
                ),
            final(self).health == sat_sub(
                old(self).health as int,
                count_deaths(old(self).enemies@),
            ),
            final(self).active_enemies == count_alive(old(self).enemies@) - count_deaths(
                old(self).enemies@,
            ),
            final(self).player == old(self).player,
            final(self).projectiles == old(self).projectiles,
            final(self).tick_count == old(self).tick_count,
            final(self).tick_delay == old(self).tick_delay,
            final(self).projectile_count == old(self).projectile_count,
            final(self).rng == old(self).rng,
            final(self).init == old(self).init,
    {
        let ghost s0 = old(self).enemies@;
        let mut i: usize = 0;
        while i < ENEMY_COUNT
            invariant
                old(self).wf(),
                self.wf(),
                i <= ENEMY_COUNT,
                self.enemies@.len() == ENEMY_COUNT,
                forall|j: int|
                    0 <= j < i ==> #[trigger] self.enemies@[j] == step_enemy(s0[j]),
                forall|j: int| i <= j < ENEMY_COUNT ==> #[trigger] self.enemies@[j] == s0[j],
                self.health == sat_sub(old(self).health as int, count_deaths(s0.take(i as int))),
                self.active_enemies == count_alive(s0) - count_deaths(s0.take(i as int)),
                s0 == old(self).enemies@,
                self.player == old(self).player,
                self.projectiles == old(self).projectiles,
                self.tick_count == old(self).tick_count,
                self.tick_delay == old(self).tick_delay,
                self.projectile_count == old(self).projectile_count,
                self.rng == old(self).rng,
                self.init == old(self).init,
            decreases ENEMY_COUNT - i,
        {
            proof {
                assert(s0.take(i + 1) =~= s0.take(i as int).push(s0[i as int]));
                lemma_count_deaths_push(s0.take(i as int), s0[i as int]);
            }
            let e = self.enemies[i];
            if e.alive {
                if e.move_delay > 1 {
                    let e2 = EnemyObj { move_delay: e.move_delay - 1, ..e };
                    proof {
                        lemma_count_alive_update(self.enemies@, i as int, e2);
                    }
                    self.enemies.set(i, e2);
                } else if e.pos_y + 1 < BUFFER_HEIGHT {
                    let e2 = EnemyObj { pos_y: e.pos_y + 1, move_delay: e.max_delay, ..e };
                    proof {
                        lemma_count_alive_update(self.enemies@, i as int, e2);
                    }
                    self.enemies.set(i, e2);
                } else {
                    let e2 = EnemyObj { alive: false, move_delay: e.max_delay, ..e };
                    proof {
                        lemma_count_alive_pos(self.enemies@, i as int);
                        lemma_count_alive_update(self.enemies@, i as int, e2);
                    }
                    self.enemies.set(i, e2);
                    self.active_enemies = self.active_enemies - 1;
                    if self.health > 0 {
                        self.health = self.health - 1;
                    }
                }
            }
            i = i + 1;
        }
        proof {
            assert(s0.take(ENEMY_COUNT as int) =~= s0);
        }
    }
}

/// Distance between two columns, never negative.
pub open spec fn dist(a: int, b: int) -> int {
    if a >= b {
        a - b
    } else {
        b - a
    }
}

/// How far to each side of its centre an enemy sprite reaches: half its
/// glyph count, rounded down.
pub open spec fn hit_range(e: EnemyObj) -> int {
    e.characters@.len() as int / 2
}

/// Whether a projectile on row `row`, column `x` hits this enemy.
pub open spec fn hits(e: EnemyObj, row: int, x: int) -> bool {
    e.alive && e.pos_y == row && dist(e.pos_x as int, x) <= hit_range(e)
}

/// The smallest index at or after `j` of an enemy hit on `(row, x)`.
pub open spec fn first_hit_from(s: Seq<EnemyObj>, row: int, x: int, j: int) -> Option<int>
    decreases s.len() - j,
{
    if j < 0 || j >= s.len() {
        None
    } else if hits(s[j], row, x) {
        Some(j)
    } else {
        first_hit_from(s, row, x, j + 1)
    }
}

/// The first enemy in slot order hit on `(row, x)`, which wins a tie.
pub open spec fn first_hit(s: Seq<EnemyObj>, row: int, x: int) -> Option<int> {
    first_hit_from(s, row, x, 0)
}

/// A hit enemy preceded only by missed slots is what the hit scan returns.
pub proof fn lemma_first_hit_at(s: Seq<EnemyObj>, row: int, x: int, j: int, t: int)
    requires
        0 <= t <= j < s.len(),
        hits(s[j], row, x),
        forall|m: int| t <= m < j ==> !hits(#[trigger] s[m], row, x),
    ensures
        first_hit_from(s, row, x, t) == Some(j),
    decreases j - t,
{
    if t < j {
        lemma_first_hit_at(s, row, x, j, t + 1);
    }
}

/// When no enemy is hit on `(row, x)`, the hit scan finds nothing.
pub proof fn lemma_first_hit_none(s: Seq<EnemyObj>, row: int, x: int, t: int)
    requires
        0 <= t,
        forall|m: int| t <= m < s.len() ==> !hits(#[trigger] s[m], row, x),
    ensures
        first_hit_from(s, row, x, t) is None,
    decreases s.len() - t,
{
    if t < s.len() {
        lemma_first_hit_none(s, row, x, t + 1);
    }
}

/// What the hit scan returns is a hit enemy, preceded only by misses.
pub proof fn lemma_first_hit_sound(s: Seq<EnemyObj>, row: int, x: int, t: int)
    requires
        0 <= t,
    ensures
        first_hit_from(s, row, x, t) matches Some(j) ==> t <= j < s.len() && hits(s[j], row, x)
            && forall|m: int| t <= m < j ==> !hits(#[trigger] s[m], row, x),
    decreases s.len() - t,
{
    if t < s.len() && !hits(s[t], row, x) {
        lemma_first_hit_sound(s, row, x, t + 1);
    }
}

/// The hit scan starting at `t` succeeds when some enemy at or after `t`
/// is hit.
pub proof fn lemma_first_hit_finds(s: Seq<EnemyObj>, row: int, x: int, t: int, w: int)
    requires
        0 <= t <= w < s.len(),
        hits(s[w], row, x),
    ensures
        first_hit_from(s, row, x, t) is Some,
    decreases w - t,
{
    if !hits(s[t], row, x) {
        lemma_first_hit_finds(s, row, x, t + 1, w);
    }
}

/// One tick of a single projectile against the enemy field: an inactive
/// slot rests; a projectile on the top rows leaves the display; any other
/// moves one row up and is consumed by the first enemy in slot order it
/// hits, which is destroyed.  The third component counts the destroyed
/// enemy.
pub open spec fn step_proj(es: Seq<EnemyObj>, p: Projectile) -> (Seq<EnemyObj>, Projectile, int) {
    if !p.active {
        (es, p, 0int)
    } else if p.pos_y <= 1 {
        (es, Projectile { active: false, ..p }, 0int)
    } else {
        let p2 = Projectile { pos_y: (p.pos_y - 1) as usize, ..p };
        match first_hit(es, p2.pos_y as int, p2.pos_x as int) {
            Some(j) => (
                es.update(j, EnemyObj { alive: false, ..es[j] }),
                Projectile { active: false, ..p2 },
                1int,
            ),
            None => (es, p2, 0int),
        }
    }
}

/// The first `k` projectiles stepped in slot order, each against the enemy
/// field as the ones before it left it.  The third component counts the
/// destroyed enemies.
pub open spec fn proj_phase(es: Seq<EnemyObj>, ps: Seq<Projectile>, k: int) -> (
    Seq<EnemyObj>,
    Seq<Projectile>,
    int,
)
    decreases k,
{
    if k <= 0 {
        (es, ps, 0int)
    } else {
        let prev = proj_phase(es, ps, k - 1);
        let st = step_proj(prev.0, ps[k - 1]);
        (st.0, prev.1.update(k - 1, st.1), prev.2 + st.2)
    }
}

/// Stepping the first `k` projectiles leaves the later slots untouched,
/// keeps both array lengths, and only ever clears alive flags.
pub proof fn lemma_proj_phase_frame(es: Seq<EnemyObj>, ps: Seq<Projectile>, k: int)
    requires
        0 <= k <= ps.len(),
    ensures
        proj_phase(es, ps, k).0.len() == es.len(),
        proj_phase(es, ps, k).1.len() == ps.len(),
        forall|m: int| k <= m < ps.len() ==> proj_phase(es, ps, k).1[m] == ps[m],
        forall|i: int|
            0 <= i < es.len() ==> ((#[trigger] proj_phase(es, ps, k).0[i]).alive ==> es[i].alive),
        forall|i: int|
            0 <= i < es.len() ==> {
                let e = #[trigger] proj_phase(es, ps, k).0[i];
                let e0 = es[i];
                e.id == e0.id && e.pos_x == e0.pos_x && e.pos_y == e0.pos_y && e.move_delay
                    == e0.move_delay && e.max_delay == e0.max_delay && e.characters
                    == e0.characters
            },
    decreases k,
{
    if k > 0 {
        lemma_proj_phase_frame(es, ps, k - 1);
        let prev = proj_phase(es, ps, k - 1);
        let p = ps[k - 1];
        if p.active && p.pos_y > 1 {
            let p2 = Projectile { pos_y: (p.pos_y - 1) as usize, ..p };
            lemma_first_hit_sound(prev.0, p2.pos_y as int, p2.pos_x as int, 0);
        }
    }
}

/// The death count is between zero and the number of slots.
pub proof fn lemma_count_deaths_bounds(s: Seq<EnemyObj>)
    ensures
        0 <= count_deaths(s) <= s.len(),
    decreases s.len(),
{
    if s.len() > 0 {
        lemma_count_deaths_bounds(s.drop_last());
    }
}

/// Looks for the first enemy in slot order that a projectile on
/// `(row, x)` hits.
fn find_first_hit(enemies: &Vec<EnemyObj>, row: usize, x: usize) -> (r: Option<usize>)
    ensures
        r matches Some(j) ==> 0 <= j < enemies@.len() && first_hit(enemies@, row as int, x as int)
            == Some(j as int),
        r is None ==> first_hit(enemies@, row as int, x as int) is None,
{
    let mut j: usize = 0;
    while j < enemies.len()
        invariant
            j <= enemies@.len(),
            forall|m: int| 0 <= m < j ==> !hits(#[trigger] enemies@[m], row as int, x as int),
        decreases enemies@.len() - j,
    {
        let e = enemies[j];
        let d = if e.pos_x >= x {
            e.pos_x - x
        } else {
            x - e.pos_x
        };
        let size = e.characters.len() / 2;
        if e.alive && e.pos_y == row && d <= size {
            proof {
                lemma_first_hit_at(enemies@, row as int, x as int, j as int, 0);
            }
            return Some(j);
        }
        j = j + 1;
    }
    proof {
        lemma_first_hit_none(enemies@, row as int, x as int, 0);
    }
    None
}

impl GamePlayer {
    /// One tick of the projectile in slot `i`: see `step_proj`.
    fn step_one_projectile(&mut self, i: usize)
        requires
            old(self).wf(),
            i < BUFFER_HEIGHT,
        ensures
            final(self).wf(),
            ({
                let st = step_proj(old(self).enemies@, old(self).projectiles@[i as int]);
                &&& final(self).enemies@ == st.0
                &&& final(self).projectiles@ == old(self).projectiles@.update(i as int, st.1)
                &&& final(self).active_enemies == old(self).active_enemies - st.2
            }),
            final(self).health == old(self).health,
            final(self).player == old(self).player,
            final(self).tick_count == old(self).tick_count,
            final(self).tick_delay == old(self).tick_delay,
            final(self).projectile_count == old(self).projectile_count,
            final(self).rng == old(self).rng,
            final(self).init == old(self).init,
    {
        let p = self.projectiles[i];
        if p.active {
            if p.pos_y > 1 {
                let p2 = Projectile { pos_y: p.pos_y - 1, ..p };
                self.projectiles.set(i, p2);
                match find_first_hit(&self.enemies, p2.pos_y, p2.pos_x) {
                    Some(j) => {
                        let e = self.enemies[j];
                        let e2 = EnemyObj { alive: false, ..e };
                        proof {
                            lemma_first_hit_sound(self.enemies@, p2.pos_y as int, p2.pos_x as int, 0);
                            lemma_count_alive_pos(self.enemies@, j as int);
                            lemma_count_alive_update(self.enemies@, j as int, e2);
                        }
                        self.enemies.set(j, e2);
                        self.active_enemies = self.active_enemies - 1;
                        self.projectiles.set(i, Projectile { active: false, ..p2 });
                        proof {
                            assert(final(self).projectiles@ =~= old(self).projectiles@.update(
                                i as int,
                                step_proj(old(self).enemies@, old(self).projectiles@[i as int]).1,
                            ));
                        }
                    },
                    None => {},
                }
            } else {
                self.projectiles.set(i, Projectile { active: false, ..p });
            }
        } else {
            proof {
                assert(final(self).projectiles@ =~= old(self).projectiles@.update(
                    i as int,
                    old(self).projectiles@[i as int],
                ));
            }
        }
    }

    /// One tick of every projectile, in slot order: each active projectile
    /// leaves at the top or moves one row up, and is consumed by the first
    /// enemy it then hits.
    pub fn step_projectiles(&mut self)
        requires
            old(self).wf(),
        ensures
            final(self).wf(),
            ({
                let ph = proj_phase(old(self).enemies@, old(self).projectiles@, BUFFER_HEIGHT as int);
                &&& final(self).enemies@ == ph.0
                &&& final(self).projectiles@ == ph.1
                &&& final(self).active_enemies == old(self).active_enemies - ph.2
            }),
            final(self).health == old(self).health,
            final(self).player == old(self).player,
            final(self).tick_count == old(self).tick_count,
            final(self).tick_delay == old(self).tick_delay,
            final(self).projectile_count == old(self).projectile_count,
            final(self).rng == old(self).rng,
            final(self).init == old(self).init,
    {
        let ghost es0 = old(self).enemies@;
        let ghost ps0 = old(self).projectiles@;
        let mut i: usize = 0;
        while i < BUFFER_HEIGHT
            invariant
                old(self).wf(),
                self.wf(),
                i <= BUFFER_HEIGHT,
                es0 == old(self).enemies@,
                ps0 == old(self).projectiles@,
                self.enemies@ == proj_phase(es0, ps0, i as int).0,
                self.projectiles@ == proj_phase(es0, ps0, i as int).1,
                self.active_enemies == old(self).active_enemies - proj_phase(es0, ps0, i as int).2,
                self.health == old(self).health,
                self.player == old(self).player,
                self.tick_count == old(self).tick_count,
                self.tick_delay == old(self).tick_delay,
                self.projectile_count == old(self).projectile_count,
                self.rng == old(self).rng,
                self.init == old(self).init,
            decreases BUFFER_HEIGHT - i,
        {
            proof {
                lemma_proj_phase_frame(es0, ps0, i as int);
            }
            self.step_one_projectile(i);
            i = i + 1;
        }
    }
}

/// Collision resolution for one moving projectile.  When some alive enemy
/// on the projectile's new row has its column within half a sprite width
/// of the projectile's, exactly the first such enemy in slot order is
/// destroyed — every other enemy is untouched — and the projectile is
/// consumed.  When none has, no enemy changes and the projectile keeps
/// moving.
pub proof fn lemma_collision_symmetry(es: Seq<EnemyObj>, p: Projectile)
    requires
        p.active,
        p.pos_y > 1,
    ensures
        ({
            let p2 = Projectile { pos_y: (p.pos_y - 1) as usize, ..p };
            let row = p2.pos_y as int;
            let x = p2.pos_x as int;
            let st = step_proj(es, p);
            &&& (exists|j: int| 0 <= j < es.len() && hits(#[trigger] es[j], row, x)) ==> (exists|
                j0: int,
            |
                {
                    &&& 0 <= j0 < es.len()
                    &&& hits(#[trigger] es[j0], row, x)
                    &&& forall|m: int| 0 <= m < j0 ==> !hits(#[trigger] es[m], row, x)
                    &&& st.0 == es.update(j0, EnemyObj { alive: false, ..es[j0] })
                    &&& forall|i: int| 0 <= i < es.len() && i != j0 ==> #[trigger] st.0[i] == es[i]
                    &&& !st.1.active
                    &&& st.2 == 1
                })
            &&& !(exists|j: int| 0 <= j < es.len() && hits(#[trigger] es[j], row, x)) ==> st.0
                == es && st.1 == p2 && st.1.active && st.2 == 0
        }),
{
    let p2 = Projectile { pos_y: (p.pos_y - 1) as usize, ..p };
    let row = p2.pos_y as int;
    let x = p2.pos_x as int;
    if exists|j: int| 0 <= j < es.len() && hits(#[trigger] es[j], row, x) {
        let w = choose|j: int| 0 <= j < es.len() && hits(#[trigger] es[j], row, x);
        lemma_first_hit_finds(es, row, x, 0, w);
        lemma_first_hit_sound(es, row, x, 0);
    } else {
        lemma_first_hit_none(es, row, x, 0);
    }
}

/// In every well-formed state the active-enemy count is within the slot
/// capacity, so no tick sequence can push it past the cap.
pub proof fn lemma_spawn_cap(g: GamePlayer)
    requires
        g.wf(),
    ensures
        g.active_enemies <= ENEMY_COUNT,
{
    lemma_count_alive_bounds(g.enemies@);
}

/// Spawning keeps every slot's id: only the first free slot's flags and
/// position change.
pub proof fn lemma_spawn_preserves_ids(s: Seq<EnemyObj>, x: usize)
    ensures
        spawn_at(s, x).len() == s.len(),
        forall|i: int| 0 <= i < s.len() ==> (#[trigger] spawn_at(s, x)[i]).id == s[i].id,
{
    lemma_first_inactive_from_sound(s, 0);
}

/// Firing keeps every slot's id: only the first free slot's flags and
/// position change.
pub proof fn lemma_fire_preserves_ids(s: Seq<Projectile>, x: usize, y: usize)
    ensures
        fire_at(s, x, y).len() == s.len(),
        forall|i: int| 0 <= i < s.len() ==> (#[trigger] fire_at(s, x, y)[i]).id == s[i].id,
{
    lemma_first_free_proj_sound(s, 0);
}

/// What the free-projectile scan returns is a free slot in range.
pub proof fn lemma_first_free_proj_sound(s: Seq<Projectile>, t: int)
    requires
        0 <= t,
    ensures
        first_free_proj_from(s, t) matches Some(k) ==> t <= k < s.len() && !s[k].active,
    decreases s.len() - t,
{
    if t < s.len() && s[t].active {
        lemma_first_free_proj_sound(s, t + 1);
    }
}

/// Every enemy stepped one tick, independently of each other.
pub open spec fn stepped_enemies(s: Seq<EnemyObj>) -> Seq<EnemyObj> {
    Seq::new(s.len(), |i: int| step_enemy(s[i]))
}

impl GamePlayer {
    /// One full movement step: every enemy ticks (reaching the bottom costs
    /// health and frees the slot), then every projectile moves and collides.
    pub fn move_items(&mut self)
        requires
            old(self).wf(),
        ensures
            final(self).wf(),
            ({
                let em = stepped_enemies(old(self).enemies@);
                let ph = proj_phase(em, old(self).projectiles@, BUFFER_HEIGHT as int);
                &&& final(self).enemies@ == ph.0
                &&& final(self).projectiles@ == ph.1
                &&& final(self).health == sat_sub(
                    old(self).health as int,
                    count_deaths(old(self).enemies@),
                )
                &&& final(self).active_enemies == count_alive(old(self).enemies@) - count_deaths(
                    old(self).enemies@,
                ) - ph.2
            }),
            final(self).health <= old(self).health,
            final(self).player == old(self).player,
            final(self).tick_count == old(self).tick_count,
            final(self).tick_delay == old(self).tick_delay,
            final(self).projectile_count == old(self).projectile_count,
            final(self).rng == old(self).rng,
            final(self).init == old(self).init,
    {
        self.step_enemies();
        proof {
            assert(self.enemies@ =~= stepped_enemies(old(self).enemies@));
            lemma_count_deaths_bounds(old(self).enemies@);
        }
        self.step_projectiles();
    }
}

/// A projectile slot as firing leaves it: active one row above the player.
pub open spec fn fired_proj(p: Projectile, x: usize, y: usize) -> Projectile {
    Projectile { active: true, pos_x: x, pos_y: y, ..p }
}

/// The projectile array after a fire action from column `x`, row `y + 1`:
/// the first free slot comes alive at `(x, y)`; with no free slot the
/// action is dropped and nothing changes.
pub open spec fn fire_at(s: Seq<Projectile>, x: usize, y: usize) -> Seq<Projectile> {
    match first_free_proj(s) {
        Some(j) => s.update(j, fired_proj(s[j], x, y)),
        None => s,
    }
}

impl GamePlayer {
    /// Fires: places the first free projectile on the player's column, one
    /// row above the player.  When every slot is in flight the action is
    /// silently dropped.
    pub fn init_proj(&mut self)
        requires
            old(self).wf(),
        ensures
            final(self).wf(),
            final(self).projectiles@ == fire_at(
                old(self).projectiles@,
                old(self).player.pos_x,
                (old(self).player.pos_y - 1) as usize,
            ),
            final(self).enemies == old(self).enemies,
            final(self).player == old(self).player,
            final(self).tick_count == old(self).tick_count,
            final(self).tick_delay == old(self).tick_delay,
            final(self).projectile_count == old(self).projectile_count,
            final(self).active_enemies == old(self).active_enemies,
            final(self).health == old(self).health,
            final(self).rng == old(self).rng,
            final(self).init == old(self).init,
    {
        let mut j: usize = 0;
        while j < BUFFER_HEIGHT && self.projectiles[j].active
            invariant
                old(self).wf(),
                self == old(self),
                j <= BUFFER_HEIGHT,
                forall|m: int| 0 <= m < j ==> (#[trigger] self.projectiles@[m]).active,
            decreases BUFFER_HEIGHT - j,
        {
            j = j + 1;
        }
        if j < BUFFER_HEIGHT {
            proof {
                lemma_first_free_proj_at(self.projectiles@, j as int, 0);
            }
            let p = self.projectiles[j];
            let x = self.player.pos_x;
            let y = self.player.pos_y - 1;
            self.projectiles.set(j, Projectile { active: true, pos_x: x, pos_y: y, ..p });
        } else {
            proof {
                lemma_first_free_proj_none(self.projectiles@, 0);
            }
        }
    }

    /// Applies one printable character: `a` and `d` move the player one
    /// column with wraparound at the edges and ask the host for an
    /// immediate redraw; `w` fires; anything else does nothing.
    fn handle_unicode(&mut self, c: char) -> (redraw: bool)
        requires
            old(self).wf(),
        ensures
            final(self).wf(),
            c == 'a' ==> final(self).player.pos_x == wrap_left(
                old(self).player.pos_x as int,
                BUFFER_WIDTH as int,
            ) && final(self).projectiles == old(self).projectiles && redraw,
            c == 'd' ==> final(self).player.pos_x == wrap_right(
                old(self).player.pos_x as int,
                BUFFER_WIDTH as int,
            ) && final(self).projectiles == old(self).projectiles && redraw,
            c == 'a' || c == 'd' ==> final(self).player.pos_y == old(self).player.pos_y && final(self).player.characters == old(self).player.characters,
            c == 'w' ==> final(self).player == old(self).player && final(self).projectiles@
                == fire_at(
                old(self).projectiles@,
                old(self).player.pos_x,
                (old(self).player.pos_y - 1) as usize,
            ) && !redraw,
            c != 'a' && c != 'd' && c != 'w' ==> *final(self) == *old(self) && !redraw,
            final(self).enemies == old(self).enemies,
            final(self).tick_count == old(self).tick_count,
            final(self).tick_delay == old(self).tick_delay,
            final(self).projectile_count == old(self).projectile_count,
            final(self).active_enemies == old(self).active_enemies,
            final(self).health == old(self).health,
            final(self).rng == old(self).rng,
            final(self).init == old(self).init,
    {
        match c {
            'a' => {
                if self.player.pos_x > 0 {
                    self.player.pos_x = self.player.pos_x - 1;
                } else {
                    self.player.pos_x = BUFFER_WIDTH - 1;
                }
                true
            },
            'd' => {
                self.player.pos_x = crate::safe_add::<BUFFER_WIDTH>(self.player.pos_x, 1);
                proof {
                    if old(self).player.pos_x == BUFFER_WIDTH - 1 {
                        vstd::arithmetic::div_mod::lemma_mod_self_0(BUFFER_WIDTH as int);
                    } else {
                        vstd::arithmetic::div_mod::lemma_small_mod(
                            (old(self).player.pos_x + 1) as nat,
                            BUFFER_WIDTH as nat,
                        );
                    }
                }
                true
            },
            'w' => {
                self.init_proj();
                false
            },
            _ => { false },
        }
    }

    /// Applies one control key: the space bar counts and fires a
    /// projectile; anything else does nothing.
    fn handle_raw(&mut self, code: RawKey)
        requires
            old(self).wf(),
            old(self).projectile_count < usize::MAX,
        ensures
            final(self).wf(),
            code == RawKey::Spacebar ==> final(self).projectile_count == old(self).projectile_count + 1 && final(self).projectiles@ == fire_at(
                old(self).projectiles@,
                old(self).player.pos_x,
                (old(self).player.pos_y - 1) as usize,
            ),
            code != RawKey::Spacebar ==> *final(self) == *old(self),
            final(self).enemies == old(self).enemies,
            final(self).player == old(self).player,
            final(self).tick_count == old(self).tick_count,
            final(self).tick_delay == old(self).tick_delay,
            final(self).active_enemies == old(self).active_enemies,
            final(self).health == old(self).health,
            final(self).rng == old(self).rng,
            final(self).init == old(self).init,
    {
        match code {
            RawKey::Spacebar => {
                self.projectile_count = self.projectile_count + 1;
                self.init_proj();
            },
            _ => {},
        }
    }

    /// Advances the simulation by one tick.  In the terminal dead state
    /// nothing moves any more.  On a waiting tick only the tick counter
    /// advances; on a simulation tick an enemy is spawned on a
    /// pseudo-random column while slots are free, then everything moves
    /// and collides.
    pub fn tick(&mut self)
        requires
            old(self).wf(),
        ensures
            final(self).wf(),
            final(self).health <= old(self).health,
            old(self).health == 0 ==> *final(self) == *old(self),
            final(self).active_enemies <= ENEMY_COUNT,
            old(self).init ==> final(self).init,
            old(self).health > 0 ==> final(self).init,
            final(self).player == old(self).player,
            final(self).tick_delay == old(self).tick_delay,
            final(self).projectile_count == old(self).projectile_count,
            old(self).init ==> forall|i: int|
                0 <= i < ENEMY_COUNT ==> (#[trigger] final(self).enemies@[i]).id == old(
                    self,
                ).enemies@[i].id,
            old(self).init ==> forall|i: int|
                0 <= i < BUFFER_HEIGHT ==> (#[trigger] final(self).projectiles@[i]).id == old(
                    self,
                ).projectiles@[i].id,
            old(self).health > 0 && old(self).active_enemies == ENEMY_COUNT ==> forall|i: int|
                0 <= i < ENEMY_COUNT ==> ((#[trigger] final(self).enemies@[i]).alive ==> old(
                    self,
                ).enemies@[i].alive),
            old(self).init && old(self).health > 0 && old(self).tick_count < old(self).tick_delay
                ==> final(self).enemies == old(self).enemies && final(self).projectiles == old(
                self,
            ).projectiles && final(self).health == old(self).health && final(self).active_enemies
                == old(self).active_enemies && final(self).tick_count == old(self).tick_count + 1
                && final(self).rng == old(self).rng,
            old(self).init && old(self).health > 0 && old(self).tick_count >= old(self).tick_delay
                ==> final(self).tick_count == 0,
            old(self).init && old(self).health > 0 && old(self).tick_count >= old(self).tick_delay
                && old(self).active_enemies < ENEMY_COUNT ==> exists|x: usize|
                x < BUFFER_WIDTH && {
                    let s1 = #[trigger] spawn_at(old(self).enemies@, x);
                    let em = stepped_enemies(s1);
                    let ph = proj_phase(em, old(self).projectiles@, BUFFER_HEIGHT as int);
                    &&& final(self).enemies@ == ph.0
                    &&& final(self).projectiles@ == ph.1
                    &&& final(self).health == sat_sub(old(self).health as int, count_deaths(s1))
                    &&& final(self).active_enemies == count_alive(s1) - count_deaths(s1) - ph.2
                },
            old(self).init && old(self).health > 0 && old(self).tick_count >= old(self).tick_delay
                && old(self).active_enemies == ENEMY_COUNT ==> ({
                let s1 = old(self).enemies@;
                let em = stepped_enemies(s1);
                let ph = proj_phase(em, old(self).projectiles@, BUFFER_HEIGHT as int);
                &&& final(self).enemies@ == ph.0
                &&& final(self).projectiles@ == ph.1
                &&& final(self).health == sat_sub(old(self).health as int, count_deaths(s1))
                &&& final(self).active_enemies == count_alive(s1) - count_deaths(s1) - ph.2
            }),
    {
        if self.health == 0 {
            proof {
                lemma_count_alive_bounds(self.enemies@);
            }
            return ;
        }
        if !self.init {
            self.initialize();
        }
        let ghost g1 = *self;
        if self.tick_count >= self.tick_delay {
            if self.active_enemies < ENEMY_COUNT {
                self.add_enemy();
            }
            let ghost g2 = *self;
            self.move_items();
            self.tick_count = 0;
            proof {
                if old(self).init && old(self).tick_count >= old(self).tick_delay {
                    if old(self).active_enemies < ENEMY_COUNT {
                        let x = choose|x: usize|
                            x < BUFFER_WIDTH && g2.enemies@ == spawn_at(g1.enemies@, x);
                        assert(x < BUFFER_WIDTH && {
                            let s1 = spawn_at(old(self).enemies@, x);
                            let em = stepped_enemies(s1);
                            let ph = proj_phase(em, old(self).projectiles@, BUFFER_HEIGHT as int);
                            &&& final(self).enemies@ == ph.0
                            &&& final(self).projectiles@ == ph.1
                            &&& final(self).health == sat_sub(
                                old(self).health as int,
                                count_deaths(s1),
                            )
                            &&& final(self).active_enemies == count_alive(s1) - count_deaths(s1)
                                - ph.2
                        });
                    } else {
                        let x: usize = 0;
                        assert(x < BUFFER_WIDTH && {
                            let s1 = old(self).enemies@;
                            let em = stepped_enemies(s1);
                            let ph = proj_phase(em, old(self).projectiles@, BUFFER_HEIGHT as int);
                            &&& final(self).enemies@ == ph.0
                            &&& final(self).projectiles@ == ph.1
                            &&& final(self).health == sat_sub(
                                old(self).health as int,
                                count_deaths(s1),
                            )
                            &&& final(self).active_enemies == count_alive(s1) - count_deaths(s1)
                                - ph.2
                        });
                    }
                }
                if old(self).health > 0 && old(self).active_enemies == ENEMY_COUNT {
                    lemma_proj_phase_frame(
                        stepped_enemies(g2.enemies@),
                        g2.projectiles@,
                        BUFFER_HEIGHT as int,
                    );
                }
                lemma_count_alive_bounds(final(self).enemies@);
            }
        } else {
            self.tick_count = self.tick_count + 1;
            proof {
                lemma_count_alive_bounds(final(self).enemies@);
            }
        }
    }

    /// Applies one key event.  In the terminal dead state every event is
    /// accepted and ignored.  The result says whether the host should
    /// redraw at once, which movement keys ask for.
    pub fn input(&mut self, key: KeyInput) -> (redraw: bool)
        requires
            old(self).wf(),
            old(self).projectile_count < usize::MAX,
        ensures
            final(self).wf(),
            old(self).health == 0 ==> *final(self) == *old(self) && !redraw,
            final(self).health == old(self).health,
            final(self).active_enemies == old(self).active_enemies,
            final(self).tick_count == old(self).tick_count,
            final(self).tick_delay == old(self).tick_delay,
            old(self).health > 0 ==> final(self).init,
            old(self).health > 0 ==> {
                &&& key == KeyInput::Unicode('a') ==> final(self).player.pos_x == wrap_left(
                    old(self).player.pos_x as int,
                    BUFFER_WIDTH as int,
                ) && redraw
                &&& key == KeyInput::Unicode('d') ==> final(self).player.pos_x == wrap_right(
                    old(self).player.pos_x as int,
                    BUFFER_WIDTH as int,
                ) && redraw
                &&& (key != KeyInput::Unicode('a') && key != KeyInput::Unicode('d')) ==> final(self).player == old(self).player && !redraw
                &&& key == KeyInput::Raw(RawKey::Spacebar) ==> final(self).projectile_count == old(self).projectile_count + 1
                &&& key != KeyInput::Raw(RawKey::Spacebar) ==> final(self).projectile_count == old(self).projectile_count
            },
            old(self).health > 0 && old(self).init ==> {
                &&& forall|i: int|
                    0 <= i < ENEMY_COUNT ==> #[trigger] final(self).enemies@[i] == old(self).enemies@[i]
                &&& key == KeyInput::Unicode('w') || key == KeyInput::Raw(RawKey::Spacebar)
                    ==> final(self).projectiles@ == fire_at(
                    old(self).projectiles@,
                    old(self).player.pos_x,
                    (old(self).player.pos_y - 1) as usize,
                )
                &&& (key != KeyInput::Unicode('w') && key != KeyInput::Raw(RawKey::Spacebar))
                    ==> final(self).projectiles == old(self).projectiles
                &&& final(self).rng == old(self).rng
            },
    {
        if self.health == 0 {
            return false;
        }
        if !self.init {
            self.initialize();
        }
        match key {
            KeyInput::Raw(code) => {
                self.handle_raw(code);
                false
            },
            KeyInput::Unicode(c) => self.handle_unicode(c),
        }
    }
}

} // verus!
