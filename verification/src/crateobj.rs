//! Pushable crates lying in a level.

use vstd::prelude::*;
use crate::config::TILE_SIZE;
use crate::rect::{Rect, RectView};

verus! {

/// A crate: where it lies, and which cell of its sprite sheet it shows.
pub struct Crate {
    pos: Rect,
    src: Rect,
}

/// The first cell of the crate sprite sheet.
pub open spec fn crate_src() -> RectView {
    RectView::from_args(0, 0, TILE_SIZE as int, TILE_SIZE as int)
}

impl Crate {
    /// A crate at a fixed spot, for testing.
    pub fn newc() -> (c: Crate)
        ensures
            c.pos()@ == RectView::from_args(100, 100, TILE_SIZE as int, TILE_SIZE as int),
            c.src()@ == crate_src(),
    {
        let pos = Rect::new(100, 100, TILE_SIZE, TILE_SIZE);
        let src = Rect::new(0, 0, TILE_SIZE, TILE_SIZE);
        Crate { pos, src }
    }

    /// A crate at `pos`.
    pub fn new(pos: Rect) -> (c: Crate)
        ensures
            c.pos() == pos,
            c.src()@ == crate_src(),
    {
        let src = Rect::new(0, 0, TILE_SIZE, TILE_SIZE);
        Crate { pos, src }
    }

    pub closed spec fn spec_src(&self) -> Rect {
        self.src
    }

    pub closed spec fn spec_pos(&self) -> Rect {
        self.pos
    }

    #[verifier::when_used_as_spec(spec_src)]
    pub fn src(&self) -> (r: Rect)
        ensures
            r == self.spec_src(),
    {
        self.src
    }

    pub fn set_src(&mut self, new_src: Rect)
        ensures
            final(self).src() == new_src,
            final(self).pos() == old(self).pos(),
    {
        self.src = new_src;
    }

    #[verifier::when_used_as_spec(spec_pos)]
    pub fn pos(&self) -> (r: Rect)
        ensures
            r == self.spec_pos(),
    {
        self.pos
    }
}

} // verus!
