//! What the application is set up with.

use vstd::prelude::*;
use crate::board::error::BoardError;
use crate::board::tile_set::TileSet;
use crate::positioning::SideLength;

verus! {

/// The size of the window, in pixels.
#[derive(Debug, Clone, Copy, PartialEq, Eq, Structural)]
pub struct WindowConfig {
    pub width: usize,
    pub height: usize,
}

impl Default for WindowConfig {
    /// A window of 800 by 800 pixels.
    fn default() -> (window: WindowConfig)
        ensures
            window == (WindowConfig { width: 800, height: 800 }),
    {
        WindowConfig { width: 800, height: 800 }
    }
}

/// The width of a window for which none is given.
pub fn width() -> (pixels: usize)
    ensures
        pixels == 800,
{
    WindowConfig::default().width
}

/// The height of a window for which none is given.
pub fn height() -> (pixels: usize)
    ensures
        pixels == 800,
{
    WindowConfig::default().height
}

/// The settings of the application: its window, where its pictures lie, the
/// side of the board, and the tile sets from which boards are built.
#[derive(Debug)]
pub struct AppConfig {
    pub window: WindowConfig,
    pub assets_path: String,
    pub board_side_length: SideLength,
    pub tile_sets: Vec<TileSet>,
}

impl AppConfig {
    /// Reads the tiles of every tile set, one set after the other, and stops
    /// at the first set that cannot be read: that set and those after it are
    /// then as they were.
    pub fn parse_tiles(&mut self) -> (done: Result<(), BoardError>)
        ensures
            final(self).window == old(self).window,
            final(self).assets_path == old(self).assets_path,
            final(self).board_side_length == old(self).board_side_length,
            final(self).tile_sets@.len() == old(self).tile_sets@.len(),
            done is Ok <==> forall|k: int|
                0 <= k < old(self).tile_sets@.len() ==> (
                #[trigger] old(self).tile_sets@[k]).reads(),
            done matches Err(error) ==> exists|k: int|
                {
                    &&& 0 <= k < old(self).tile_sets@.len()
                    &&& forall|j: int| 0 <= j < k ==> (#[trigger] old(self).tile_sets@[j]).reads()
                    &&& (#[trigger] old(self).tile_sets@[k]).refused_with(error)
                    &&& forall|j: int|
                        k <= j < old(self).tile_sets@.len() ==> final(self).tile_sets@[j] == old(
                            self,
                        ).tile_sets@[j]
                    &&& forall|j: int|
                        0 <= j < k ==> old(self).tile_sets@[j].read_as(
                            #[trigger] final(self).tile_sets@[j],
                        )
                },
            done is Ok ==> forall|j: int|
                0 <= j < old(self).tile_sets@.len() ==> old(self).tile_sets@[j].read_as(
                    #[trigger] final(self).tile_sets@[j],
                ),
    {
        let mut k: usize = 0;
        while k < self.tile_sets.len()
            invariant
                k <= self.tile_sets@.len(),
                self.window == old(self).window,
                self.assets_path == old(self).assets_path,
                self.board_side_length == old(self).board_side_length,
                self.tile_sets@.len() == old(self).tile_sets@.len(),
                forall|j: int| 0 <= j < k ==> (#[trigger] old(self).tile_sets@[j]).reads(),
                forall|j: int|
                    k <= j < self.tile_sets@.len() ==> self.tile_sets@[j] == old(
                        self,
                    ).tile_sets@[j],
                forall|j: int|
                    0 <= j < k ==> old(self).tile_sets@[j].read_as(#[trigger] self.tile_sets@[j]),
            decreases self.tile_sets@.len() - k,
        {
            let ghost before = self.tile_sets@;
            match self.tile_sets[k].parse() {
                Ok(()) => {},
                Err(error) => {
                    assert(self.tile_sets@[k as int] == before[k as int]) by {
                        let after = self.tile_sets@[k as int];
                        let was = before[k as int];
                        assert(after.tiles == was.tiles);
                        assert(after.name == was.name);
                        assert(after.raw_tiles == was.raw_tiles);
                        assert(after.side_length == was.side_length);
                    }
                    assert(old(self).tile_sets@[k as int].refused_with(error));
                    return Err(error);
                },
            }
            k += 1;
        }
        Ok(())
    }
}

/// Which components of a path are left once every step to the parent has
/// taken away the component before it: `parents` says of each component
/// whether it is such a step, and the places of those that are left come
/// back in order. A step to the parent with nothing before it is dropped.
pub open spec fn left_components(parents: Seq<bool>) -> Seq<usize>
    decreases parents.len(),
{
    if parents.len() == 0 {
        Seq::empty()
    } else {
        let before = left_components(parents.drop_last());
        if parents.last() {
            if before.len() == 0 {
                before
            } else {
                before.drop_last()
            }
        } else {
            before.push((parents.len() - 1) as usize)
        }
    }
}

/// The places of the components of a path that are left once every step to
/// the parent has taken away the component before it.
pub fn resolve_parents(parents: &Vec<bool>) -> (left: Vec<usize>)
    ensures
        left@ == left_components(parents@),
{
    let mut left: Vec<usize> = Vec::new();
    let mut i: usize = 0;
    while i < parents.len()
        invariant
            i <= parents@.len(),
            left@ == left_components(parents@.take(i as int)),
        decreases parents@.len() - i,
    {
        assert(parents@.take(i + 1).drop_last() == parents@.take(i as int));
        if parents[i] {
            left.pop();
        } else {
            left.push(i);
        }
        i += 1;
    }
    assert(parents@.take(i as int) == parents@);
    left
}

} // verus!
