use cell_shooter::add1;
use cell_shooter::render::sprite_columns;
use cell_shooter::safe_add;
use cell_shooter::sub1;
use cell_shooter::Projectile;
use cell_shooter::BUFFER_WIDTH;

#[test]
fn safe_add_reduces_modulo_the_limit() {
    assert_eq!(safe_add::<80>(79, 1), 0);
    assert_eq!(safe_add::<80>(40, 2), 42);
    assert_eq!(safe_add::<80>(79, 81), 0);
    assert_eq!(safe_add::<25>(24, 1), 0);
}

#[test]
fn add1_and_sub1_wrap() {
    assert_eq!(add1::<80>(0), 1);
    assert_eq!(add1::<80>(79), 0);
    assert_eq!(sub1::<80>(0), 79);
    assert_eq!(sub1::<80>(79), 78);
    assert_eq!(add1::<80>(sub1::<80>(0)), 0);
    for c in 0..BUFFER_WIDTH {
        assert_eq!(add1::<80>(sub1::<80>(c)), c, "a left step then a right step is a round trip");
    }
}

#[test]
fn projectile_setters() {
    let mut p = Projectile::default();
    p.change_id(7);
    assert_eq!(p.id, 7);
    p.update_pos_y(33);
    assert_eq!(p.pos_x, 33, "the setter adjusts the horizontal position");
    assert_eq!(p.pos_y, 0);
}

#[test]
fn sprite_columns_centre_the_glyphs() {
    assert_eq!(sprite_columns(40, 2), vec![(0, 38), (1, 39), (2, 40), (3, 41), (4, 42)]);
    assert_eq!(sprite_columns(40, 1), vec![(0, 39), (1, 40), (2, 41)]);
}

#[test]
fn sprite_columns_clip_at_the_edges() {
    assert_eq!(sprite_columns(0, 1), vec![(1, 0), (2, 1)]);
    assert_eq!(sprite_columns(79, 2), vec![(0, 77), (1, 78), (2, 79)]);
    assert_eq!(sprite_columns(0, 0), vec![(0, 0)]);
}
