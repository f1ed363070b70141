use cell_shooter::letters::is_drawable;
use cell_shooter::KeyInput;
use cell_shooter::LetterMover;
use cell_shooter::RawKey;
use cell_shooter::BUFFER_HEIGHT;
use cell_shooter::BUFFER_WIDTH;

#[test]
fn default_letter_mover() {
    let m = LetterMover::default();
    assert_eq!(m.letters.len(), BUFFER_WIDTH);
    assert!(m.letters.iter().all(|c| *c == 'A'));
    assert_eq!(m.num_letters, 1);
    assert_eq!(m.next_letter, 1);
    assert_eq!(m.col, BUFFER_WIDTH / 2);
    assert_eq!(m.row, BUFFER_HEIGHT / 2);
    assert_eq!(m.dx, 0);
    assert_eq!(m.dy, 0);
}

#[test]
fn drawable_characters() {
    assert!(is_drawable('a'));
    assert!(is_drawable(' '));
    assert!(is_drawable('~'));
    assert!(!is_drawable('\n'));
    assert!(!is_drawable('\u{7f}'));
}

#[test]
fn arrows_nudge_velocity_with_wraparound() {
    let mut m = LetterMover::default();
    m.key(KeyInput::Raw(RawKey::ArrowLeft));
    assert_eq!(m.dx, BUFFER_WIDTH - 1);
    m.key(KeyInput::Raw(RawKey::ArrowRight));
    assert_eq!(m.dx, 0);
    m.key(KeyInput::Raw(RawKey::ArrowUp));
    assert_eq!(m.dy, BUFFER_HEIGHT - 1);
    m.key(KeyInput::Raw(RawKey::ArrowDown));
    assert_eq!(m.dy, 0);
}

#[test]
fn tick_glides_the_head() {
    let mut m = LetterMover::default();
    m.key(KeyInput::Raw(RawKey::ArrowRight));
    assert_eq!(m.dx, 1);
    m.tick();
    assert_eq!(m.col, BUFFER_WIDTH / 2 + 1);
    assert_eq!(m.row, BUFFER_HEIGHT / 2);
    for _ in 0..(BUFFER_WIDTH - 1) {
        m.tick();
    }
    assert_eq!(m.col, BUFFER_WIDTH / 2, "the head wraps around the display");
}

#[test]
fn typed_letters_join_the_train() {
    let mut m = LetterMover::default();
    m.key(KeyInput::Unicode('B'));
    assert_eq!(m.letters[1], 'B');
    assert_eq!(m.num_letters, 2);
    assert_eq!(m.next_letter, 2);
    m.key(KeyInput::Unicode('\n'));
    assert_eq!(m.num_letters, 2, "an undrawable key is ignored");
    let cols = m.letter_columns();
    assert_eq!(cols, vec![40, 41]);
}

#[test]
fn letter_columns_wrap() {
    let mut m = LetterMover::default();
    for _ in 0..41 {
        m.key(KeyInput::Raw(RawKey::ArrowRight));
    }
    assert_eq!(m.dx, 41);
    m.tick();
    assert_eq!(m.col, 1);
    m.key(KeyInput::Unicode('C'));
    let cols = m.letter_columns();
    assert_eq!(cols, vec![1, 2]);
}
