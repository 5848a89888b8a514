//! Builds the board of a game from the settings.

use std::rc::Rc;
use vstd::prelude::*;
use crate::board::board::EditableBoard;
use crate::board::error::BoardError;
use crate::board::plan::BoardView;
use crate::board::tile_set::TileSet;
use crate::config::AppConfig;
use crate::game::game_state::GameState;
use crate::random::choose_one;

verus! {

/// Another pointer to the settings behind `shared`, made by `Rc::clone` of
/// std, which copies the pointer and leaves the value alone.
#[verifier::external_body]
fn share(shared: &Rc<AppConfig>) -> (other: Rc<AppConfig>)
    ensures
        *other == **shared,
{
    Rc::clone(shared)
}

/// Builds boards as the settings ask.
pub struct Builder {
    config: Rc<AppConfig>,
}

impl Builder {
    /// A builder that works from `config`.
    pub fn new(config: &Rc<AppConfig>) -> (builder: Builder)
        ensures
            builder.config() == **config,
    {
        let config = share(config);
        Builder { config }
    }

    /// The settings that the builder works from.
    pub closed spec fn config(&self) -> AppConfig {
        *self.config
    }

    /// Builds the board of `world` anew: empties it to the side that the
    /// settings give, draws one of their tile sets at random, and fills the
    /// four corners with tiles drawn from that set. The robots stay where
    /// they are.
    ///
    /// A side below 2 is refused, and the board then stays as it was. Once
    /// the board is emptied, a failure leaves it empty: there is no tile set
    /// to draw, the set drawn has no tiles, or a tile drawn does not fit.
    pub fn build_on<B: EditableBoard>(&self, world: &mut GameState<B>) -> (done: Result<
        (),
        BoardError,
    >)
        requires
            self.config().board_side_length.0 <= isize::MAX,
        ensures
            final(world).robots == old(world).robots,
            self.config().board_side_length.0 < 2 ==> {
                &&& done == Err::<(), BoardError>(BoardError::InvalidDimensionToBuildBoard)
                &&& final(world).board == old(world).board
            },
            self.config().board_side_length.0 >= 2 ==> {
                let empty = BoardView::empty(self.config().board_side_length.0 as nat);
                &&& final(world).board.wf()
                &&& self.config().tile_sets@.len() == 0 ==> {
                    &&& done == Err::<(), BoardError>(BoardError::EmptyTileSet)
                    &&& final(world).board@ == empty
                }
                &&& self.config().tile_sets@.len() > 0 ==> exists|set: TileSet|
                    {
                        &&& self.config().tile_sets@.contains(set)
                        &&& #[trigger] set.fills(empty, final(world).board@, done)
                    }
            },
    {
        world.board.reset(&self.config.board_side_length)?;
        match choose_one(&self.config.tile_sets) {
            None => Err(BoardError::EmptyTileSet),
            Some(tile_set) => tile_set.build_rand(&mut world.board),
        }
    }
}

} // verus!
