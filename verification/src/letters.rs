//! A small marquee of letters gliding over the display: arrow keys set its
//! velocity, printable keys append to the letter train.

use vstd::prelude::*;

verus! {

use crate::BUFFER_HEIGHT;
use crate::BUFFER_WIDTH;
use crate::keys::KeyInput;
use crate::keys::RawKey;
use crate::wrap_left;
use crate::wrap_right;

/// Whether the display can show this character: its low byte is a
/// printable ASCII code.
pub open spec fn drawable(c: char) -> bool {
    0x20 <= (c as u8) && (c as u8) <= 0x7e
}

/// Tells whether the display can show this character.
pub fn is_drawable(c: char) -> (r: bool)
    ensures
        r == drawable(c),
{
    let b = c as u8;
    0x20 <= b && b <= 0x7e
}

/// The letter train: up to one letter per display column, a head position,
/// and a velocity, all wrapping around the display.
pub struct LetterMover {
    pub letters: Vec<char>,
    pub num_letters: usize,
    pub next_letter: usize,
    pub col: usize,
    pub row: usize,
    pub dx: usize,
    pub dy: usize,
}

impl LetterMover {
    /// Well-formedness: one letter cell per display column, and every
    /// coordinate and velocity on the display.
    pub open spec fn wf(&self) -> bool {
        &&& self.letters@.len() == BUFFER_WIDTH
        &&& 1 <= self.num_letters <= BUFFER_WIDTH
        &&& self.next_letter < BUFFER_WIDTH
        &&& self.col < BUFFER_WIDTH
        &&& self.row < BUFFER_HEIGHT
        &&& self.dx < BUFFER_WIDTH
        &&& self.dy < BUFFER_HEIGHT
    }

    /// The columns the train's letters stand on: letter `n` sits `n` cells
    /// right of the head, wrapping at the display edge.
    pub fn letter_columns(&self) -> (r: Vec<usize>)
        requires
            self.wf(),
        ensures
            r@.len() == self.num_letters,
            forall|n: int|
                0 <= n < self.num_letters ==> #[trigger] r@[n] == (n + self.col) % (
                BUFFER_WIDTH as int),
    {
        let mut r: Vec<usize> = Vec::new();
        let mut n: usize = 0;
        while n < self.num_letters
            invariant
                self.wf(),
                n <= self.num_letters,
                r@.len() == n,
                forall|m: int|
                    0 <= m < n ==> #[trigger] r@[m] == (m + self.col) % (BUFFER_WIDTH as int),
            decreases self.num_letters - n,
        {
            r.push(crate::safe_add::<BUFFER_WIDTH>(n, self.col));
            n = n + 1;
        }
        r
    }

    /// One tick: the head glides one velocity step, wrapping around the
    /// display.
    pub fn tick(&mut self)
        requires
            old(self).wf(),
        ensures
            final(self).wf(),
            final(self).col == (old(self).col + old(self).dx) % (BUFFER_WIDTH as int),
            final(self).row == (old(self).row + old(self).dy) % (BUFFER_HEIGHT as int),
            final(self).letters == old(self).letters,
            final(self).num_letters == old(self).num_letters,
            final(self).next_letter == old(self).next_letter,
            final(self).dx == old(self).dx,
            final(self).dy == old(self).dy,
    {
        self.update_location();
    }

    /// Applies the velocity to the head position.
    fn update_location(&mut self)
        requires
            old(self).wf(),
        ensures
            final(self).wf(),
            final(self).col == (old(self).col + old(self).dx) % (BUFFER_WIDTH as int),
            final(self).row == (old(self).row + old(self).dy) % (BUFFER_HEIGHT as int),
            final(self).letters == old(self).letters,
            final(self).num_letters == old(self).num_letters,
            final(self).next_letter == old(self).next_letter,
            final(self).dx == old(self).dx,
            final(self).dy == old(self).dy,
    {
        self.col = crate::safe_add::<BUFFER_WIDTH>(self.col, self.dx);
        self.row = crate::safe_add::<BUFFER_HEIGHT>(self.row, self.dy);
        proof {
            vstd::arithmetic::div_mod::lemma_mod_bound(
                (old(self).col + old(self).dx) as int,
                BUFFER_WIDTH as int,
            );
            vstd::arithmetic::div_mod::lemma_mod_bound(
                (old(self).row + old(self).dy) as int,
                BUFFER_HEIGHT as int,
            );
        }
    }

    /// Applies one key event: arrows nudge the velocity one step with
    /// wraparound, a drawable character joins the train, anything else
    /// does nothing.
    pub fn key(&mut self, key: KeyInput)
        requires
            old(self).wf(),
        ensures
            final(self).wf(),
            key == KeyInput::Raw(RawKey::ArrowLeft) ==> *final(self) == (LetterMover {
                dx: wrap_left(old(self).dx as int, BUFFER_WIDTH as int) as usize,
                ..*old(self)
            }),
            key == KeyInput::Raw(RawKey::ArrowRight) ==> *final(self) == (LetterMover {
                dx: wrap_right(old(self).dx as int, BUFFER_WIDTH as int) as usize,
                ..*old(self)
            }),
            key == KeyInput::Raw(RawKey::ArrowUp) ==> *final(self) == (LetterMover {
                dy: wrap_left(old(self).dy as int, BUFFER_HEIGHT as int) as usize,
                ..*old(self)
            }),
            key == KeyInput::Raw(RawKey::ArrowDown) ==> *final(self) == (LetterMover {
                dy: wrap_right(old(self).dy as int, BUFFER_HEIGHT as int) as usize,
                ..*old(self)
            }),
            key == KeyInput::Raw(RawKey::Spacebar) || key == KeyInput::Raw(RawKey::Other)
                ==> *final(self) == *old(self),
            key matches KeyInput::Unicode(c) ==> {
                if drawable(c) {
                    &&& final(self).letters@ == old(self).letters@.update(
                        old(self).next_letter as int,
                        c,
                    )
                    &&& final(self).next_letter == wrap_right(
                        old(self).next_letter as int,
                        BUFFER_WIDTH as int,
                    )
                    &&& final(self).num_letters == (if old(self).num_letters + 1 <= BUFFER_WIDTH {
                        old(self).num_letters + 1
                    } else {
                        BUFFER_WIDTH as int
                    })
                    &&& final(self).col == old(self).col && final(self).row == old(self).row
                    &&& final(self).dx == old(self).dx && final(self).dy == old(self).dy
                } else {
                    *final(self) == *old(self)
                }
            },
    {
        match key {
            KeyInput::Raw(code) => self.handle_raw(code),
            KeyInput::Unicode(c) => self.handle_unicode(c),
        }
    }

    /// Arrow keys nudge the velocity one step with wraparound.
    fn handle_raw(&mut self, key: RawKey)
        requires
            old(self).wf(),
        ensures
            final(self).wf(),
            key == RawKey::ArrowLeft ==> *final(self) == (LetterMover {
                dx: wrap_left(old(self).dx as int, BUFFER_WIDTH as int) as usize,
                ..*old(self)
            }),
            key == RawKey::ArrowRight ==> *final(self) == (LetterMover {
                dx: wrap_right(old(self).dx as int, BUFFER_WIDTH as int) as usize,
                ..*old(self)
            }),
            key == RawKey::ArrowUp ==> *final(self) == (LetterMover {
                dy: wrap_left(old(self).dy as int, BUFFER_HEIGHT as int) as usize,
                ..*old(self)
            }),
            key == RawKey::ArrowDown ==> *final(self) == (LetterMover {
                dy: wrap_right(old(self).dy as int, BUFFER_HEIGHT as int) as usize,
                ..*old(self)
            }),
            key == RawKey::Spacebar || key == RawKey::Other ==> *final(self) == *old(self),
    {
        match key {
            RawKey::ArrowLeft => {
                self.dx = crate::sub1::<BUFFER_WIDTH>(self.dx);
            },
            RawKey::ArrowRight => {
                self.dx = crate::add1::<BUFFER_WIDTH>(self.dx);
            },
            RawKey::ArrowUp => {
                self.dy = crate::sub1::<BUFFER_HEIGHT>(self.dy);
            },
            RawKey::ArrowDown => {
                self.dy = crate::add1::<BUFFER_HEIGHT>(self.dy);
            },
            _ => {},
        }
    }

    /// A drawable character joins the train where `next_letter` points,
    /// and the train grows until it fills the display width.
    fn handle_unicode(&mut self, key: char)
        requires
            old(self).wf(),
        ensures
            final(self).wf(),
            drawable(key) ==> {
                &&& final(self).letters@ == old(self).letters@.update(
                    old(self).next_letter as int,
                    key,
                )
                &&& final(self).next_letter == wrap_right(
                    old(self).next_letter as int,
                    BUFFER_WIDTH as int,
                )
                &&& final(self).num_letters == (if old(self).num_letters + 1 <= BUFFER_WIDTH {
                    old(self).num_letters + 1
                } else {
                    BUFFER_WIDTH as int
                })
                &&& final(self).col == old(self).col && final(self).row == old(self).row
                &&& final(self).dx == old(self).dx && final(self).dy == old(self).dy
            },
            !drawable(key) ==> *final(self) == *old(self),
    {
        if is_drawable(key) {
            self.letters.set(self.next_letter, key);
            self.next_letter = crate::add1::<BUFFER_WIDTH>(self.next_letter);
            let grown = self.num_letters + 1;
            self.num_letters = if grown <= BUFFER_WIDTH {
                grown
            } else {
                BUFFER_WIDTH
            };
        }
    }
}

impl Default for LetterMover {
    /// One letter `A` in the middle of the display, standing still.
    fn default() -> (d: Self)
        ensures
            d.wf(),
            d.letters@ == Seq::new(BUFFER_WIDTH as nat, |i: int| 'A'),
            d.num_letters == 1,
            d.next_letter == 1,
            d.col == BUFFER_WIDTH / 2,
            d.row == BUFFER_HEIGHT / 2,
            d.dx == 0,
            d.dy == 0,
    {
        let mut letters: Vec<char> = Vec::new();
        while letters.len() < BUFFER_WIDTH
            invariant
                letters@.len() <= BUFFER_WIDTH,
                forall|i: int| 0 <= i < letters@.len() ==> #[trigger] letters@[i] == 'A',
            decreases BUFFER_WIDTH - letters@.len(),
        {
            letters.push('A');
        }
        proof {
            assert(letters@ =~= Seq::new(BUFFER_WIDTH as nat, |i: int| 'A'));
        }
        LetterMover {
            letters,
            num_letters: 1,
            next_letter: 1,
            col: BUFFER_WIDTH / 2,
            row: BUFFER_HEIGHT / 2,
            dx: 0,
            dy: 0,
        }
    }
}

} // verus!
