use cell_shooter::GamePlayer;
use cell_shooter::KeyInput;
use cell_shooter::RawKey;
use cell_shooter::BUFFER_HEIGHT;
use cell_shooter::BUFFER_WIDTH;
use cell_shooter::ENEMY_COUNT;
use cell_shooter::START_HEALTH;

#[test]
fn fresh_engine_state() {
    let g = GamePlayer::new(1);
    assert_eq!(g.health, START_HEALTH);
    assert_eq!(g.active_enemies, 0);
    assert_eq!(g.tick_count, 0);
    assert_eq!(g.tick_delay, 1);
    assert_eq!(g.projectile_count, 0);
    assert!(!g.init);
    assert_eq!(g.player.pos_x, BUFFER_WIDTH / 2);
    assert_eq!(g.player.pos_y, BUFFER_HEIGHT - 2);
    assert_eq!(g.enemies.len(), ENEMY_COUNT);
    assert_eq!(g.projectiles.len(), BUFFER_HEIGHT);
    assert!(g.enemies.iter().all(|e| !e.alive));
    assert!(g.projectiles.iter().all(|p| !p.active));
}

#[test]
fn default_engine_matches_new() {
    let g: GamePlayer = Default::default();
    assert_eq!(g.health, START_HEALTH);
    assert!(!g.init);
    assert_eq!(g.player.pos_x, 40);
}

#[test]
fn initialize_assigns_ids_and_delays() {
    let mut g = GamePlayer::new(5);
    g.initialize();
    assert!(g.init);
    for (i, e) in g.enemies.iter().enumerate() {
        assert_eq!(e.id, i);
        assert!((3..=9).contains(&e.max_delay));
        assert_eq!(e.move_delay, e.max_delay);
        assert!(!e.alive);
    }
    for (i, p) in g.projectiles.iter().enumerate() {
        assert_eq!(p.id, i);
        assert!(!p.active);
    }
}

#[test]
fn same_seed_same_world() {
    let mut a = GamePlayer::new(42);
    let mut b = GamePlayer::new(42);
    for _ in 0..20 {
        a.tick();
        b.tick();
    }
    for (ea, eb) in a.enemies.iter().zip(b.enemies.iter()) {
        assert_eq!(ea.alive, eb.alive);
        assert_eq!(ea.pos_x, eb.pos_x);
        assert_eq!(ea.pos_y, eb.pos_y);
        assert_eq!(ea.max_delay, eb.max_delay);
    }
}

#[test]
fn spawn_places_enemy_on_top_row() {
    let mut g = GamePlayer::new(7);
    g.tick();
    g.tick();
    assert_eq!(g.active_enemies, 1);
    let e = g.enemies.iter().find(|e| e.alive).expect("one enemy spawned");
    assert!(e.pos_x < BUFFER_WIDTH);
}

#[test]
fn spawn_cap_is_never_exceeded() {
    let mut g = GamePlayer::new(3);
    let mut saw_full = false;
    for _ in 0..400 {
        g.tick();
        assert!(g.active_enemies <= ENEMY_COUNT);
        assert_eq!(
            g.active_enemies,
            g.enemies.iter().filter(|e| e.alive).count()
        );
        if g.active_enemies == ENEMY_COUNT && g.health > 0 {
            let alive_before: Vec<bool> = g.enemies.iter().map(|e| e.alive).collect();
            g.tick();
            for (i, e) in g.enemies.iter().enumerate() {
                if e.alive {
                    assert!(alive_before[i], "no spawn may happen at the cap");
                }
            }
            saw_full = true;
            break;
        }
    }
    assert!(saw_full, "the field should fill up under constant spawning");
}

#[test]
fn health_is_monotone_over_any_tick_sequence() {
    let mut g = GamePlayer::new(11);
    let mut last = g.health;
    for _ in 0..2000 {
        g.tick();
        assert!(g.health <= last);
        last = g.health;
    }
}

#[test]
fn enemy_descends_after_exactly_max_delay_ticks() {
    let mut g = GamePlayer::new(1);
    g.initialize();
    g.arm_enemy(0, 5);
    g.spawn_enemy_at(40);
    assert!(g.enemies[0].alive);
    assert_eq!(g.enemies[0].pos_x, 40);
    assert_eq!(g.enemies[0].pos_y, 0);
    assert_eq!(g.enemies[0].move_delay, 5);
    for _ in 0..4 {
        g.move_items();
    }
    assert_eq!(g.enemies[0].pos_y, 0, "four ticks are not enough for a step");
    assert_eq!(g.enemies[0].move_delay, 1);
    g.move_items();
    assert_eq!(g.enemies[0].pos_y, 1, "the fifth tick moves the enemy");
    assert_eq!(g.enemies[0].move_delay, 5, "the countdown is re-armed");
}

#[test]
fn enemy_reaching_bottom_costs_one_health() {
    let mut g = GamePlayer::new(1);
    g.initialize();
    g.arm_enemy(0, 5);
    g.spawn_enemy_at(40);
    let mut steps = 0;
    while g.enemies[0].alive {
        g.move_items();
        steps += 1;
        assert!(steps <= 5 * BUFFER_HEIGHT, "the enemy must reach the bottom");
    }
    assert_eq!(g.health, START_HEALTH - 1);
    assert_eq!(g.active_enemies, 0);
    assert_eq!(g.enemies[0].pos_y, BUFFER_HEIGHT - 1);
    assert_eq!(steps, 5 * BUFFER_HEIGHT, "one step per five ticks, the last at the bottom row");
}

#[test]
fn projectile_destroys_adjacent_enemy_on_meeting_row() {
    let mut g = GamePlayer::new(2);
    g.initialize();
    g.arm_enemy(0, 9);
    g.spawn_enemy_at(41);
    assert_eq!(g.player.pos_x, 40);
    let redraw = g.input(KeyInput::Raw(RawKey::Spacebar));
    assert!(!redraw);
    assert_eq!(g.projectile_count, 1);
    assert!(g.projectiles[0].active);
    assert_eq!(g.projectiles[0].pos_x, 40);
    assert_eq!(g.projectiles[0].pos_y, g.player.pos_y - 1);
    for _ in 0..19 {
        g.move_items();
    }
    assert!(g.projectiles[0].active);
    assert_eq!(g.projectiles[0].pos_y, 3);
    assert!(g.enemies[0].alive);
    assert_eq!(g.enemies[0].pos_y, 2);
    assert_eq!(g.active_enemies, 1);
    g.move_items();
    assert!(!g.projectiles[0].active, "the projectile is consumed");
    assert!(!g.enemies[0].alive, "the enemy is destroyed");
    assert_eq!(g.active_enemies, 0);
    assert_eq!(g.health, START_HEALTH, "a shot-down enemy costs no health");
}

#[test]
fn projectile_misses_distant_enemy() {
    let mut g = GamePlayer::new(2);
    g.initialize();
    g.arm_enemy(0, 9);
    g.spawn_enemy_at(50);
    g.input(KeyInput::Unicode('w'));
    assert_eq!(g.projectile_count, 0, "only the space bar counts fires");
    for _ in 0..25 {
        g.move_items();
    }
    assert!(!g.projectiles[0].active, "the projectile left the display");
    assert!(g.enemies[0].alive, "an enemy three or more columns away is missed");
    assert_eq!(g.active_enemies, 1);
}

#[test]
fn fire_with_all_slots_in_flight_is_dropped() {
    let mut g = GamePlayer::new(4);
    g.initialize();
    for _ in 0..BUFFER_HEIGHT {
        g.input(KeyInput::Unicode('w'));
    }
    assert!(g.projectiles.iter().all(|p| p.active));
    let before: Vec<(usize, usize, bool)> =
        g.projectiles.iter().map(|p| (p.pos_x, p.pos_y, p.active)).collect();
    g.input(KeyInput::Unicode('w'));
    let after: Vec<(usize, usize, bool)> =
        g.projectiles.iter().map(|p| (p.pos_x, p.pos_y, p.active)).collect();
    assert_eq!(before, after, "with no free slot the fire action is dropped");
}

#[test]
fn player_wraps_at_both_edges() {
    let mut g = GamePlayer::new(6);
    g.initialize();
    for _ in 0..40 {
        let redraw = g.input(KeyInput::Unicode('a'));
        assert!(redraw);
    }
    assert_eq!(g.player.pos_x, 0);
    assert!(g.input(KeyInput::Unicode('a')));
    assert_eq!(g.player.pos_x, BUFFER_WIDTH - 1, "moving left from column 0 wraps");
    assert!(g.input(KeyInput::Unicode('d')));
    assert_eq!(g.player.pos_x, 0, "moving right from the last column wraps");
    g.input(KeyInput::Unicode('d'));
    assert_eq!(g.player.pos_x, 1);
}

#[test]
fn unknown_keys_do_nothing() {
    let mut g = GamePlayer::new(6);
    g.initialize();
    let x = g.player.pos_x;
    assert!(!g.input(KeyInput::Unicode('q')));
    assert!(!g.input(KeyInput::Raw(RawKey::Other)));
    assert!(!g.input(KeyInput::Raw(RawKey::ArrowLeft)));
    assert_eq!(g.player.pos_x, x);
    assert_eq!(g.projectile_count, 0);
    assert!(g.projectiles.iter().all(|p| !p.active));
}

#[test]
fn slot_ids_survive_activation_cycles() {
    let mut g = GamePlayer::new(8);
    g.initialize();
    g.arm_enemy(0, 3);
    g.spawn_enemy_at(10);
    while g.enemies[0].alive {
        g.move_items();
    }
    g.spawn_enemy_at(20);
    for _ in 0..50 {
        g.tick();
    }
    for (i, e) in g.enemies.iter().enumerate() {
        assert_eq!(e.id, i, "an enemy id never changes after initialization");
    }
    for (i, p) in g.projectiles.iter().enumerate() {
        assert_eq!(p.id, i, "a projectile id never changes after initialization");
    }
}

#[test]
fn dead_engine_ignores_ticks_and_input() {
    let mut g = GamePlayer::new(9);
    g.initialize();
    for _ in 0..START_HEALTH {
        g.arm_enemy(0, 3);
        g.spawn_enemy_at(5);
        while g.enemies[0].alive {
            g.move_items();
        }
    }
    assert_eq!(g.health, 0);
    let enemies_before: Vec<(bool, usize, usize)> =
        g.enemies.iter().map(|e| (e.alive, e.pos_x, e.pos_y)).collect();
    let tick_count_before = g.tick_count;
    let player_before = g.player.pos_x;
    g.tick();
    assert!(!g.input(KeyInput::Unicode('a')));
    assert!(!g.input(KeyInput::Raw(RawKey::Spacebar)));
    g.tick();
    let enemies_after: Vec<(bool, usize, usize)> =
        g.enemies.iter().map(|e| (e.alive, e.pos_x, e.pos_y)).collect();
    assert_eq!(enemies_before, enemies_after);
    assert_eq!(g.tick_count, tick_count_before);
    assert_eq!(g.player.pos_x, player_before);
    assert_eq!(g.projectile_count, 0);
    assert!(g.projectiles.iter().all(|p| !p.active));
    assert_eq!(g.health, 0);
}

#[test]
fn health_saturates_at_zero() {
    let mut g = GamePlayer::new(10);
    g.initialize();
    for _ in 0..START_HEALTH {
        g.arm_enemy(0, 3);
        g.spawn_enemy_at(5);
        while g.enemies[0].alive {
            g.move_items();
        }
    }
    assert_eq!(g.health, 0);
    g.arm_enemy(0, 3);
    g.arm_enemy(1, 3);
    g.spawn_enemy_at(5);
    g.spawn_enemy_at(15);
    for _ in 0..(3 * BUFFER_HEIGHT) {
        g.move_items();
    }
    assert!(!g.enemies[0].alive && !g.enemies[1].alive);
    assert_eq!(g.health, 0, "health never goes below zero");
}

#[test]
fn waiting_tick_only_advances_the_counter() {
    let mut g = GamePlayer::new(12);
    g.initialize();
    assert_eq!(g.tick_count, 0);
    g.tick();
    assert_eq!(g.tick_count, 1);
    assert_eq!(g.active_enemies, 0, "a waiting tick spawns nothing");
    g.tick();
    assert_eq!(g.tick_count, 0, "a simulation tick resets the counter");
    assert_eq!(g.active_enemies, 1);
}
