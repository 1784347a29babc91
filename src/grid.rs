//! The grid's settings.
use vstd::prelude::*;
use crate::dot::{Dot, DotStorage};
use crate::game::TILEMAP_SIZE;

verus! {

/// The grid of a game: its side, in cells.
pub struct GridPlugin {
    pub size: usize,
}

impl Default for GridPlugin {
    /// A 16 by 16 grid.
    fn default() -> (r: GridPlugin)
        ensures
            r.size == TILEMAP_SIZE,
    {
        GridPlugin { size: TILEMAP_SIZE }
    }
}

impl GridPlugin {
    /// An empty board of this grid's size.
    pub fn build(&self) -> (r: DotStorage)
        requires
            self.size * self.size <= u32::MAX,
        ensures
            r.wf(),
            r@.n == self.size,
            r@.dot_count == 0,
            r@.cells == Seq::new((self.size * self.size) as nat, |i: int| None::<Dot>),
    {
        DotStorage::empty(self.size)
    }
}

} // verus!
