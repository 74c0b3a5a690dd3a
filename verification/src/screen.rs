//! The display: 64 by 32 pixels of one bit each. Sprites are drawn onto it
//! by exclusive or, and positions wrap around at the edges.

use vstd::prelude::*;

verus! {

/// The number of pixels in a row of the screen.
pub const SCREEN_WIDTH: usize = 64;

/// The number of rows of the screen.
pub const SCREEN_HEIGHT: usize = 32;

/// The number of pixels of the screen: `SCREEN_WIDTH` times `SCREEN_HEIGHT`.
pub const SCREEN_PIXELS: usize = 2048;

/// The number of pixels in a row of a sprite.
pub const SPRITE_WIDTH: u8 = 8;

/// Where the pixel in column `px` of row `py` stands in a frame: the rows of
/// the screen follow each other from the top one down.
pub open spec fn pixel_index(px: int, py: int) -> int {
    py * SCREEN_WIDTH + px
}

/// Whether the pixel in column `px` of row `py` is lit in `frame`.
pub open spec fn lit(frame: Seq<bool>, px: int, py: int) -> bool {
    frame[pixel_index(px, py)]
}

/// Whether the pixel in column `col` of the sprite row `bits` is set. Column
/// 0 is the leftmost pixel and the most significant bit.
pub open spec fn sprite_bit(bits: u8, col: u8) -> bool {
    (bits >> ((7 - col) as u8)) & 1 == 1
}

/// The column of a sprite drawn at `x` that lands on column `px` of the
/// screen, if it is less than `SPRITE_WIDTH`.
pub open spec fn sprite_column(x: int, px: int) -> int {
    (px - x) % (SCREEN_WIDTH as int)
}

/// Whether a sprite row `bits`, drawn with its left end at column `x` in row
/// `y` (both wrap around), has a set pixel that lands on column `px` of row
/// `py` of the screen.
pub open spec fn row_covers(x: int, y: int, bits: u8, px: int, py: int) -> bool {
    &&& py == y % (SCREEN_HEIGHT as int)
    &&& sprite_column(x, px) < SPRITE_WIDTH
    &&& sprite_bit(bits, sprite_column(x, px) as u8)
}

/// `frame` after the sprite row `bits` was drawn at `x`, `y`: each pixel
/// that a set pixel of the row lands on is flipped.
pub open spec fn row_drawn(frame: Seq<bool>, x: int, y: int, bits: u8) -> Seq<bool> {
    Seq::new(
        frame.len(),
        |i: int|
            frame[i] != row_covers(
                x,
                y,
                bits,
                i % (SCREEN_WIDTH as int),
                i / (SCREEN_WIDTH as int),
            ),
    )
}

/// Whether column `col` of the sprite row `bits`, drawn at `x`, `y`, is set
/// and lands on a pixel that is lit in `frame`.
pub open spec fn column_collides(frame: Seq<bool>, x: int, y: int, bits: u8, col: int) -> bool {
    sprite_bit(bits, col as u8) && lit(
        frame,
        (x + col) % (SCREEN_WIDTH as int),
        y % (SCREEN_HEIGHT as int),
    )
}

/// Whether drawing the sprite row `bits` at `x`, `y` turns off a pixel that
/// is lit in `frame`.
pub open spec fn row_collides(frame: Seq<bool>, x: int, y: int, bits: u8) -> bool {
    exists|col: int| 0 <= col < SPRITE_WIDTH && #[trigger] column_collides(frame, x, y, bits, col)
}

/// `frame` after the sprite `rows` was drawn with its top left corner at
/// `x`, `y`: row after row, the top one first, each one row further down.
pub open spec fn drawn(frame: Seq<bool>, x: int, y: int, rows: Seq<u8>) -> Seq<bool>
    decreases rows.len(),
{
    if rows.len() == 0 {
        frame
    } else {
        row_drawn(drawn(frame, x, y, rows.drop_last()), x, y + rows.len() - 1, rows.last())
    }
}

/// Whether drawing the sprite `rows` at `x`, `y` turns off a lit pixel at any
/// moment of the draw.
pub open spec fn collides(frame: Seq<bool>, x: int, y: int, rows: Seq<u8>) -> bool
    decreases rows.len(),
{
    if rows.len() == 0 {
        false
    } else {
        collides(frame, x, y, rows.drop_last()) || row_collides(
            drawn(frame, x, y, rows.drop_last()),
            x,
            y + rows.len() - 1,
            rows.last(),
        )
    }
}

/// A frame with no pixel lit.
pub open spec fn blank() -> Seq<bool> {
    Seq::new(SCREEN_PIXELS as nat, |i: int| false)
}

/// Drawing keeps the size of the frame.
pub proof fn drawn_keeps_size(frame: Seq<bool>, x: int, y: int, rows: Seq<u8>)
    ensures
        drawn(frame, x, y, rows).len() == frame.len(),
    decreases rows.len(),
{
    if rows.len() > 0 {
        drawn_keeps_size(frame, x, y, rows.drop_last());
    }
}

/// The display of one machine.
pub struct Screen {
    framebuffer: Vec<bool>,
}

impl View for Screen {
    type V = Seq<bool>;

    /// The pixels of the screen, row after row from the top one down, each
    /// row from left to right.
    closed spec fn view(&self) -> Seq<bool> {
        self.framebuffer@
    }
}

impl Screen {
    /// The screen always has `SCREEN_PIXELS` pixels.
    pub open spec fn wf(&self) -> bool {
        self@.len() == SCREEN_PIXELS
    }

    /// A screen with no pixel lit.
    pub fn new() -> (screen: Screen)
        ensures
            screen.wf(),
            screen@ == blank(),
    {
        let mut framebuffer: Vec<bool> = Vec::with_capacity(SCREEN_PIXELS);
        let mut i: usize = 0;
        while i < SCREEN_PIXELS
            invariant
                i <= SCREEN_PIXELS,
                framebuffer@.len() == i,
                forall|j: int| 0 <= j < i ==> !framebuffer@[j],
            decreases SCREEN_PIXELS - i,
        {
            framebuffer.push(false);
            i += 1;
        }
        Screen { framebuffer }
    }

    /// Turns every pixel off.
    pub fn clear(&mut self)
        requires
            old(self).wf(),
        ensures
            final(self).wf(),
            final(self)@ == blank(),
    {
        let mut i: usize = 0;
        while i < SCREEN_PIXELS
            invariant
                i <= SCREEN_PIXELS,
                self.wf(),
                forall|j: int| 0 <= j < i ==> !self@[j],
            decreases SCREEN_PIXELS - i,
        {
            self.framebuffer.set(i, false);
            i += 1;
        }
    }

    /// Whether the pixel in column `x` of row `y` is lit; `None` where there
    /// is no such pixel.
    pub fn pixel(&self, x: usize, y: usize) -> (p: Option<bool>)
        requires
            self.wf(),
        ensures
            p == if x < SCREEN_WIDTH && y < SCREEN_HEIGHT {
                Some(lit(self@, x as int, y as int))
            } else {
                None
            },
    {
        if x < SCREEN_WIDTH && y < SCREEN_HEIGHT {
            Some(self.framebuffer[y * SCREEN_WIDTH + x])
        } else {
            None
        }
    }

    /// The frame as it stands, for the host to present: the pixels row after
    /// row from the top one down. The screen itself is left as it is.
    pub fn refresh(&self) -> (frame: Vec<bool>)
        requires
            self.wf(),
        ensures
            frame@ == self@,
    {
        let mut frame: Vec<bool> = Vec::with_capacity(SCREEN_PIXELS);
        let mut i: usize = 0;
        while i < SCREEN_PIXELS
            invariant
                i <= SCREEN_PIXELS,
                self.wf(),
                frame@ == self@.subrange(0, i as int),
            decreases SCREEN_PIXELS - i,
        {
            frame.push(self.framebuffer[i]);
            i += 1;
        }
        frame
    }

    /// Draws one row of a sprite and says whether a lit pixel went off.
    fn draw_row(&mut self, x: u8, y: usize, bits: u8) -> (collision: bool)
        requires
            old(self).wf(),
        ensures
            final(self).wf(),
            final(self)@ == row_drawn(old(self)@, x as int, y as int, bits),
            collision == row_collides(old(self)@, x as int, y as int, bits),
    {
        let py: usize = y % SCREEN_HEIGHT;
        let mut collision: bool = false;
        let mut col: u8 = 0;
        while col < SPRITE_WIDTH
            invariant
                col <= SPRITE_WIDTH,
                py == y % SCREEN_HEIGHT,
                self.wf(),
                old(self).wf(),
                forall|i: int|
                    0 <= i < SCREEN_PIXELS ==> self@[i] == (old(self)@[i] != (row_covers(
                        x as int,
                        y as int,
                        bits,
                        i % (SCREEN_WIDTH as int),
                        i / (SCREEN_WIDTH as int),
                    ) && sprite_column(x as int, i % (SCREEN_WIDTH as int)) < col)),
                collision == (exists|c: int|
                    0 <= c < col && #[trigger] column_collides(
                        old(self)@,
                        x as int,
                        y as int,
                        bits,
                        c,
                    )),
            decreases SPRITE_WIDTH - col,
        {
            let px: usize = (x as usize + col as usize) % SCREEN_WIDTH;
            let at: usize = py * SCREEN_WIDTH + px;
            assert(sprite_column(x as int, px as int) == col);
            assert(at as int % (SCREEN_WIDTH as int) == px && at as int / (SCREEN_WIDTH as int)
                == py);
            if (bits >> (7 - col)) & 1 == 1 {
                let was: bool = self.framebuffer[at];
                assert(was == old(self)@[at as int]);
                assert(was == column_collides(old(self)@, x as int, y as int, bits, col as int));
                if was {
                    collision = true;
                }
                self.framebuffer.set(at, !was);
            } else {
                assert(!column_collides(old(self)@, x as int, y as int, bits, col as int));
            }
            col += 1;
        }
        assert(self@ =~= row_drawn(old(self)@, x as int, y as int, bits));
        collision
    }

    /// Draws the sprite `sprite` (one byte for each row, the top row first)
    /// with its top left corner at column `x` of row `y`, and says whether a
    /// lit pixel went off. Each set pixel of the sprite flips the pixel it
    /// lands on; columns and rows wrap around at the edges of the screen.
    pub fn draw_sprite(&mut self, x: u8, y: u8, sprite: &Vec<u8>) -> (collision: bool)
        requires
            old(self).wf(),
        ensures
            final(self).wf(),
            final(self)@ == drawn(old(self)@, x as int, y as int, sprite@),
            collision == collides(old(self)@, x as int, y as int, sprite@),
    {
        let mut collision: bool = false;
        let mut row: usize = 0;
        while row < sprite.len()
            invariant
                row <= sprite@.len(),
                self.wf(),
                self@ == drawn(old(self)@, x as int, y as int, sprite@.subrange(0, row as int)),
                collision == collides(
                    old(self)@,
                    x as int,
                    y as int,
                    sprite@.subrange(0, row as int),
                ),
            decreases sprite@.len() - row,
        {
            assert(sprite@.subrange(0, row + 1).drop_last() =~= sprite@.subrange(0, row as int));
            let py: usize = (y as usize % SCREEN_HEIGHT + row % SCREEN_HEIGHT) % SCREEN_HEIGHT;
            let ghost before = self@;
            let hit: bool = self.draw_row(x, py, sprite[row]);
            proof {
                sum_wraps(y as int, row as int);
                rows_wrap(before, x as int, py as int, y + row, sprite@[row as int]);
            }
            collision = collision || hit;
            row += 1;
        }
        assert(sprite@.subrange(0, row as int) =~= sprite@);
        collision
    }
}

/// The row of the screen that a sum of two numbers wraps around to is found
/// from the rows that the two wrap around to.
proof fn sum_wraps(a: int, b: int)
    requires
        0 <= a,
        0 <= b,
    ensures
        (a % (SCREEN_HEIGHT as int) + b % (SCREEN_HEIGHT as int)) % (SCREEN_HEIGHT as int)
            == (a + b) % (SCREEN_HEIGHT as int),
{
}

/// A row drawn at `y` and one drawn at any `other` row that wraps around to
/// the same row of the screen come to the same.
proof fn rows_wrap(frame: Seq<bool>, x: int, y: int, other: int, bits: u8)
    requires
        y % (SCREEN_HEIGHT as int) == other % (SCREEN_HEIGHT as int),
    ensures
        row_drawn(frame, x, y, bits) == row_drawn(frame, x, other, bits),
        row_collides(frame, x, y, bits) == row_collides(frame, x, other, bits),
{
    assert(row_drawn(frame, x, y, bits) =~= row_drawn(frame, x, other, bits));
    assert forall|col: int|
        column_collides(frame, x, y, bits, col) == column_collides(
            frame,
            x,
            other,
            bits,
            col,
        ) by {}
}

/// Whether the sprite `rows`, drawn with its top left corner at `x`, `y`,
/// has a set pixel that lands on column `px` of row `py` of the screen.
pub open spec fn sprite_covers(x: int, y: int, rows: Seq<u8>, px: int, py: int) -> bool {
    let row = (py - y) % (SCREEN_HEIGHT as int);
    &&& row < rows.len()
    &&& sprite_column(x, px) < SPRITE_WIDTH
    &&& sprite_bit(rows[row], sprite_column(x, px) as u8)
}

/// Whether drawing the sprite `rows` at `x`, `y` flips the pixel that stands
/// at `i` in a frame.
pub open spec fn flips(x: int, y: int, rows: Seq<u8>, i: int) -> bool {
    sprite_covers(x, y, rows, i % (SCREEN_WIDTH as int), i / (SCREEN_WIDTH as int))
}

/// Whether drawing the sprite `rows` at `x`, `y` turns off the pixel that
/// stands at `i` in `frame`: it is lit, and the sprite flips it.
pub open spec fn turns_off(frame: Seq<bool>, x: int, y: int, rows: Seq<u8>, i: int) -> bool {
    frame[i] && flips(x, y, rows, i)
}

/// Whether drawing the sprite `rows` at `x`, `y` turns on the pixel that
/// stands at `i` in `frame`: it is dark, and the sprite flips it.
pub open spec fn turns_on(frame: Seq<bool>, x: int, y: int, rows: Seq<u8>, i: int) -> bool {
    !frame[i] && flips(x, y, rows, i)
}

/// Drawing a sprite that is no taller than the screen flips exactly the
/// pixels that its set pixels land on, and leaves all others as they were.
pub proof fn draw_flips_covered_pixels(frame: Seq<bool>, x: int, y: int, rows: Seq<u8>)
    requires
        frame.len() == SCREEN_PIXELS,
        rows.len() <= SCREEN_HEIGHT,
    ensures
        drawn(frame, x, y, rows).len() == SCREEN_PIXELS,
        forall|i: int|
            0 <= i < SCREEN_PIXELS ==> #[trigger] drawn(frame, x, y, rows)[i] == (frame[i]
                != flips(x, y, rows, i)),
    decreases rows.len(),
{
    if rows.len() > 0 {
        let head = rows.drop_last();
        draw_flips_covered_pixels(frame, x, y, head);
        let mid = drawn(frame, x, y, head);
        let last_y = y + rows.len() - 1;
        assert forall|i: int| 0 <= i < SCREEN_PIXELS implies #[trigger] drawn(frame, x, y, rows)[i]
            == (frame[i] != flips(x, y, rows, i)) by {
            let px = i % (SCREEN_WIDTH as int);
            let py = i / (SCREEN_WIDTH as int);
            let row = (py - y) % (SCREEN_HEIGHT as int);
            assert(mid[i] == (frame[i] != flips(x, y, head, i)));
            assert((py == last_y % (SCREEN_HEIGHT as int)) == (row == rows.len() - 1));
            if row < head.len() {
                assert(head[row] == rows[row]);
            }
        }
    }
}

/// Columns and rows that wrap around are found again: the column of the
/// screen that column `col` of a sprite lands on leads back to `col`, and so
/// for the rows.
proof fn wrapping_is_undone(x: int, y: int, col: int, row: int)
    requires
        0 <= col < SCREEN_WIDTH,
        0 <= row < SCREEN_HEIGHT,
    ensures
        sprite_column(x, (x + col) % (SCREEN_WIDTH as int)) == col,
        (((y + row) % (SCREEN_HEIGHT as int)) - y) % (SCREEN_HEIGHT as int) == row,
{
}

/// Each pixel of the screen is the landing place of one column and one row
/// of a sprite's position.
proof fn every_pixel_is_reached(x: int, y: int, i: int)
    requires
        0 <= i < SCREEN_PIXELS,
    ensures
        0 <= i % (SCREEN_WIDTH as int) < SCREEN_WIDTH,
        0 <= i / (SCREEN_WIDTH as int) < SCREEN_HEIGHT,
        0 <= sprite_column(x, i % (SCREEN_WIDTH as int)) < SCREEN_WIDTH,
        (x + sprite_column(x, i % (SCREEN_WIDTH as int))) % (SCREEN_WIDTH as int)
            == i % (SCREEN_WIDTH as int),
        0 <= (i / (SCREEN_WIDTH as int) - y) % (SCREEN_HEIGHT as int) < SCREEN_HEIGHT,
        (y + (i / (SCREEN_WIDTH as int) - y) % (SCREEN_HEIGHT as int)) % (SCREEN_HEIGHT as int)
            == i / (SCREEN_WIDTH as int),
        pixel_index(i % (SCREEN_WIDTH as int), i / (SCREEN_WIDTH as int)) == i,
{
}

/// A pixel's place in a frame gives its column and row back.
proof fn index_is_undone(px: int, py: int)
    requires
        0 <= px < SCREEN_WIDTH,
        0 <= py < SCREEN_HEIGHT,
    ensures
        0 <= pixel_index(px, py) < SCREEN_PIXELS,
        pixel_index(px, py) % (SCREEN_WIDTH as int) == px,
        pixel_index(px, py) / (SCREEN_WIDTH as int) == py,
{
}

/// Where the last row of a sprite collides with what the rows above it left,
/// one of the sprite's set pixels lands on a pixel that was lit at the start.
proof fn last_row_collision_was_lit(
    frame: Seq<bool>,
    x: int,
    y: int,
    rows: Seq<u8>,
    col: int,
) -> (i: int)
    requires
        frame.len() == SCREEN_PIXELS,
        0 < rows.len() <= SCREEN_HEIGHT,
        0 <= col < SPRITE_WIDTH,
        column_collides(
            drawn(frame, x, y, rows.drop_last()),
            x,
            y + rows.len() - 1,
            rows.last(),
            col,
        ),
    ensures
        0 <= i < SCREEN_PIXELS,
        turns_off(frame, x, y, rows, i),
{
    let head = rows.drop_last();
    let last_row = rows.len() - 1;
    let py = (y + last_row) % (SCREEN_HEIGHT as int);
    let px = (x + col) % (SCREEN_WIDTH as int);
    let i = pixel_index(px, py);
    draw_flips_covered_pixels(frame, x, y, head);
    wrapping_is_undone(x, y, col, last_row);
    index_is_undone(px, py);
    assert(drawn(frame, x, y, head)[i] == (frame[i] != flips(x, y, head, i)));
    assert(!flips(x, y, head, i));
    assert(flips(x, y, rows, i));
    i
}

/// Where a set pixel of the last row of a sprite lands on a pixel that was
/// lit at the start, the last row collides with what the rows above it left.
proof fn lit_under_last_row_collides(frame: Seq<bool>, x: int, y: int, rows: Seq<u8>, i: int)
    requires
        frame.len() == SCREEN_PIXELS,
        0 < rows.len() <= SCREEN_HEIGHT,
        0 <= i < SCREEN_PIXELS,
        turns_off(frame, x, y, rows, i),
        (i / (SCREEN_WIDTH as int) - y) % (SCREEN_HEIGHT as int) == rows.len() - 1,
    ensures
        row_collides(drawn(frame, x, y, rows.drop_last()), x, y + rows.len() - 1, rows.last()),
{
    let head = rows.drop_last();
    let px = i % (SCREEN_WIDTH as int);
    let col = sprite_column(x, px);
    draw_flips_covered_pixels(frame, x, y, head);
    every_pixel_is_reached(x, y, i);
    assert(drawn(frame, x, y, head)[i] == (frame[i] != flips(x, y, head, i)));
    assert(!flips(x, y, head, i));
    assert(column_collides(
        drawn(frame, x, y, head),
        x,
        y + rows.len() - 1,
        rows.last(),
        col,
    ));
}

/// Drawing a sprite that is no taller than the screen reports a collision
/// exactly if one of its set pixels lands on a pixel that was lit.
pub proof fn collision_is_a_lit_pixel_covered(frame: Seq<bool>, x: int, y: int, rows: Seq<u8>)
    requires
        frame.len() == SCREEN_PIXELS,
        rows.len() <= SCREEN_HEIGHT,
    ensures
        collides(frame, x, y, rows) == (exists|i: int|
            0 <= i < SCREEN_PIXELS && #[trigger] turns_off(frame, x, y, rows, i)),
    decreases rows.len(),
{
    if rows.len() == 0 {
        assert forall|i: int| 0 <= i < SCREEN_PIXELS implies !#[trigger] turns_off(
            frame,
            x,
            y,
            rows,
            i,
        ) by {
            every_pixel_is_reached(x, y, i);
        }
    } else {
        let head = rows.drop_last();
        let bits = rows.last();
        let last_y = y + rows.len() - 1;
        let mid = drawn(frame, x, y, head);
        collision_is_a_lit_pixel_covered(frame, x, y, head);
        if collides(frame, x, y, rows) {
            if collides(frame, x, y, head) {
                let i = choose|i: int|
                    0 <= i < SCREEN_PIXELS && #[trigger] turns_off(frame, x, y, head, i);
                let row = (i / (SCREEN_WIDTH as int) - y) % (SCREEN_HEIGHT as int);
                every_pixel_is_reached(x, y, i);
                assert(head[row] == rows[row]);
                assert(turns_off(frame, x, y, rows, i));
            } else {
                let col = choose|col: int|
                    0 <= col < SPRITE_WIDTH && #[trigger] column_collides(mid, x, last_y, bits, col);
                let i = last_row_collision_was_lit(frame, x, y, rows, col);
            }
        }
        if exists|i: int| 0 <= i < SCREEN_PIXELS && #[trigger] turns_off(frame, x, y, rows, i) {
            let i = choose|i: int|
                0 <= i < SCREEN_PIXELS && #[trigger] turns_off(frame, x, y, rows, i);
            let row = (i / (SCREEN_WIDTH as int) - y) % (SCREEN_HEIGHT as int);
            every_pixel_is_reached(x, y, i);
            if row < rows.len() - 1 {
                assert(head[row] == rows[row]);
                assert(turns_off(frame, x, y, head, i));
            } else {
                lit_under_last_row_collides(frame, x, y, rows, i);
            }
        }
    }
}

/// Drawing the same sprite twice at the same place gives the frame back as
/// it was: every pixel that the first draw turned on, the second turns off
/// again. The second draw reports a collision exactly if the first one
/// turned a pixel on.
pub proof fn drawing_twice_restores(frame: Seq<bool>, x: int, y: int, rows: Seq<u8>)
    requires
        frame.len() == SCREEN_PIXELS,
        rows.len() <= SCREEN_HEIGHT,
    ensures
        drawn(drawn(frame, x, y, rows), x, y, rows) == frame,
        forall|i: int|
            0 <= i < SCREEN_PIXELS && #[trigger] turns_on(frame, x, y, rows, i) ==> turns_off(
                drawn(frame, x, y, rows),
                x,
                y,
                rows,
                i,
            ),
        collides(drawn(frame, x, y, rows), x, y, rows) == (exists|i: int|
            0 <= i < SCREEN_PIXELS && #[trigger] turns_on(frame, x, y, rows, i)),
{
    let once = drawn(frame, x, y, rows);
    draw_flips_covered_pixels(frame, x, y, rows);
    draw_flips_covered_pixels(once, x, y, rows);
    assert forall|i: int| 0 <= i < SCREEN_PIXELS implies #[trigger] drawn(once, x, y, rows)[i]
        == frame[i] by {
        assert(once[i] == (frame[i] != flips(x, y, rows, i)));
    }
    assert(drawn(once, x, y, rows) =~= frame);
    collision_is_a_lit_pixel_covered(once, x, y, rows);
    assert forall|i: int| 0 <= i < SCREEN_PIXELS implies #[trigger] turns_on(frame, x, y, rows, i)
        == turns_off(once, x, y, rows, i) by {
        assert(once[i] == (frame[i] != flips(x, y, rows, i)));
    }
    if collides(once, x, y, rows) {
        let i = choose|i: int| 0 <= i < SCREEN_PIXELS && #[trigger] turns_off(once, x, y, rows, i);
        assert(turns_on(frame, x, y, rows, i));
    }
    if exists|i: int| 0 <= i < SCREEN_PIXELS && #[trigger] turns_on(frame, x, y, rows, i) {
        let i = choose|i: int| 0 <= i < SCREEN_PIXELS && #[trigger] turns_on(frame, x, y, rows, i);
        assert(turns_off(once, x, y, rows, i));
    }
}

} // verus!
