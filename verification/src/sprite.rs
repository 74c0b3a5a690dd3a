//! A sprite: a bitmap eight pixels wide and up to sixteen rows tall, one
//! byte for each row, the top row first.

use vstd::prelude::*;
use crate::error::Chip8Error;

verus! {

/// The largest number of rows a sprite can have.
pub const MAX_SPRITE_HEIGHT: u8 = 16;

/// The first `height` rows of `lines`.
pub open spec fn top_rows(lines: Seq<u8>, height: u8) -> Seq<u8> {
    lines.subrange(0, height as int)
}

/// A sprite: the bytes it was loaded with, and its height in rows.
pub struct Sprite {
    lines: Vec<u8>,
    height: u8,
}

impl Sprite {
    /// The bytes the sprite holds, the top row first.
    pub closed spec fn lines(&self) -> Seq<u8> {
        self.lines@
    }

    /// The number of rows of the sprite.
    pub closed spec fn height(&self) -> u8 {
        self.height
    }

    /// A sprite is never taller than `MAX_SPRITE_HEIGHT`.
    pub open spec fn wf(&self) -> bool {
        self.height() <= MAX_SPRITE_HEIGHT
    }

    /// A sprite of `h` rows that holds `sprite`; it fails if `h` is more
    /// than `MAX_SPRITE_HEIGHT`.
    pub fn new(sprite: Vec<u8>, h: u8) -> (res: Result<Sprite, Chip8Error>)
        ensures
            h <= MAX_SPRITE_HEIGHT ==> res is Ok && res->Ok_0.wf() && res->Ok_0.lines() == sprite@
                && res->Ok_0.height() == h,
            h > MAX_SPRITE_HEIGHT ==> res is Err && res->Err_0 == Chip8Error::SpriteTooTall,
    {
        if h > MAX_SPRITE_HEIGHT {
            return Err(Chip8Error::SpriteTooTall);
        }
        Ok(Sprite { lines: sprite, height: h })
    }

    /// The rows of the sprite, from the top one down. The sprite must hold a
    /// byte for each of its rows.
    pub fn dump(&self) -> (rows: Vec<u8>)
        requires
            self.height() <= self.lines().len(),
        ensures
            rows@ == top_rows(self.lines(), self.height()),
    {
        let mut dumped_sprite: Vec<u8> = Vec::new();
        let mut i: u8 = 0;
        while i < self.height
            invariant
                i <= self.height,
                self.height <= self.lines@.len(),
                dumped_sprite@ == self.lines@.subrange(0, i as int),
            decreases self.height - i,
        {
            dumped_sprite.push(self.lines[i as usize]);
            i += 1;
        }
        dumped_sprite
    }

    /// Replaces the bytes of the sprite by `sprite`; the height stays.
    pub fn read(&mut self, sprite: Vec<u8>)
        ensures
            final(self).lines() == sprite@,
            final(self).height() == old(self).height(),
    {
        self.lines = sprite;
    }
}

} // verus!
