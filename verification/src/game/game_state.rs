//! The state of a game: the board and the robots on it.

use vstd::prelude::*;
use crate::board::board::{Board, EditableBoard};
use crate::board::indirect_table::BoardByIndirectTable;
use crate::board::plan::{law_run_counts_free_steps, lemma_first_stop, BoardView};
use crate::game::robot::{Robot, RobotId};
use crate::positioning::{Cell, Hit, LogicalPos, Way};

verus! {

/// How often a cell is drawn for a robot before its placement is given up.
pub const START_POS_TRIES: usize = 1000;

/// A board and the robots that play on it.
pub struct GameState<B: EditableBoard> {
    pub board: B,
    pub robots: Vec<Robot>,
}

/// Whether `slot` is the place of the first robot named `id` in `robots`.
pub open spec fn is_slot_of(robots: Seq<Robot>, id: RobotId, slot: int) -> bool {
    &&& 0 <= slot < robots.len()
    &&& robots[slot].id == id
    &&& forall|j: int| 0 <= j < slot ==> (#[trigger] robots[j]).id != id
}

/// The place of the first robot named `id` in `robots`.
pub open spec fn slot_of(robots: Seq<Robot>, id: RobotId) -> Option<int> {
    if exists|slot: int| is_slot_of(robots, id, slot) {
        Some(choose|slot: int| is_slot_of(robots, id, slot))
    } else {
        None
    }
}

/// The position of the robot named `id`, if there is such a robot and it
/// has been set down.
pub open spec fn pos_of(robots: Seq<Robot>, id: RobotId) -> Option<LogicalPos> {
    match slot_of(robots, id) {
        Some(slot) => robots[slot].pos,
        None => None,
    }
}

/// The robots with the one named `id` set down on `pos`. Without such a
/// robot nothing changes.
pub open spec fn placed(robots: Seq<Robot>, id: RobotId, pos: LogicalPos) -> Seq<Robot> {
    match slot_of(robots, id) {
        Some(slot) => robots.update(slot, Robot { id, pos: Some(pos) }),
        None => robots,
    }
}

/// The cells on which the robots stand.
pub open spec fn occupied_by(robots: Seq<Robot>) -> Set<Cell> {
    Set::new(
        |cell: Cell|
            exists|i: int|
                0 <= i < robots.len() && (#[trigger] robots[i]).pos is Some
                    && robots[i].pos.unwrap()@ == cell,
    )
}

/// Whether the robots of `after` are those of `before` by name, one for one.
pub open spec fn same_names(after: Seq<Robot>, before: Seq<Robot>) -> bool {
    &&& after.len() == before.len()
    &&& forall|i: int| 0 <= i < after.len() ==> (#[trigger] after[i]).id == before[i].id
}

/// Whether the robots stand well on `board`: every robot that has been set
/// down stands on a cell of the board that is not forbidden, and no two
/// robots stand on one cell.
pub open spec fn well_placed(robots: Seq<Robot>, board: BoardView) -> bool {
    &&& forall|i: int|
        0 <= i < robots.len() && (#[trigger] robots[i]).pos is Some ==> {
            let pos = robots[i].pos.unwrap();
            &&& board.contains(pos@)
            &&& !board.moves(pos@).forbidden
        }
    &&& forall|i: int, j: int|
        0 <= i < j < robots.len() && (#[trigger] robots[i]).pos is Some ==> robots[i].pos != (
        #[trigger] robots[j]).pos
}

/// Whether a robot may stand on every cell of `board`: none of its cells is
/// forbidden.
pub open spec fn no_cell_is_forbidden(board: BoardView) -> bool {
    forall|pos: LogicalPos| board.contains(pos@) ==> !(#[trigger] board.moves(pos@)).forbidden
}

/// Whether `robot` stands in the way of a slide from `source` in direction
/// `way`: on a cell of the board in line with `source` and ahead of it.
pub open spec fn in_the_way(robot: Robot, board: BoardView, source: Cell, way: Way) -> bool {
    &&& robot.pos matches Some(pos)
    &&& board.contains(pos@)
    &&& source.in_line(pos@, way)
    &&& source.ahead(pos@, way) > 0
}

/// The first robot of a name is found at one place only.
pub proof fn lemma_slot_is_unique(robots: Seq<Robot>, id: RobotId, slot: int)
    requires
        is_slot_of(robots, id, slot),
    ensures
        slot_of(robots, id) == Some(slot),
{
    let chosen = choose|slot: int| is_slot_of(robots, id, slot);
    assert(is_slot_of(robots, id, chosen));
    if chosen < slot {
        assert(robots[chosen].id != id);
    }
    if slot < chosen {
        assert(robots[slot].id != id);
    }
}

/// Where no robot has the name, there is no place for it.
pub proof fn lemma_no_slot(robots: Seq<Robot>, id: RobotId)
    requires
        forall|j: int| 0 <= j < robots.len() ==> (#[trigger] robots[j]).id != id,
    ensures
        slot_of(robots, id) is None,
{
    if exists|slot: int| is_slot_of(robots, id, slot) {
        let slot = choose|slot: int| is_slot_of(robots, id, slot);
        assert(robots[slot].id != id);
    }
}

impl GameState<BoardByIndirectTable> {
    /// A game with the four robots, none of them set down, on a board that
    /// has no cells yet.
    pub fn new() -> (state: GameState<BoardByIndirectTable>)
        ensures
            state.board.wf(),
            state.board@ == BoardView::empty(0),
            state.robots@ == seq![
                Robot { id: RobotId::Red, pos: None },
                Robot { id: RobotId::Green, pos: None },
                Robot { id: RobotId::Blue, pos: None },
                Robot { id: RobotId::Yellow, pos: None },
            ],
    {
        GameState::with_board(BoardByIndirectTable::new())
    }
}

impl<B: EditableBoard> GameState<B> {
    /// A game with the four robots, none of them set down, on `board`.
    pub fn with_board(board: B) -> (state: GameState<B>)
        ensures
            state.board == board,
            state.robots@ == seq![
                Robot { id: RobotId::Red, pos: None },
                Robot { id: RobotId::Green, pos: None },
                Robot { id: RobotId::Blue, pos: None },
                Robot { id: RobotId::Yellow, pos: None },
            ],
    {
        let mut robots: Vec<Robot> = Vec::new();
        robots.push(Robot::new(RobotId::Red));
        robots.push(Robot::new(RobotId::Green));
        robots.push(Robot::new(RobotId::Blue));
        robots.push(Robot::new(RobotId::Yellow));
        assert(robots@ =~= seq![
            Robot { id: RobotId::Red, pos: None },
            Robot { id: RobotId::Green, pos: None },
            Robot { id: RobotId::Blue, pos: None },
            Robot { id: RobotId::Yellow, pos: None },
        ]);
        GameState { board, robots }
    }

    /// The place of the first robot named `robot_id` among the robots.
    pub fn robot_index(&self, robot_id: RobotId) -> (found: Option<usize>)
        ensures
            match found {
                Some(slot) => slot_of(self.robots@, robot_id) == Some(slot as int),
                None => slot_of(self.robots@, robot_id) is None,
            },
            found matches Some(slot) ==> slot < self.robots@.len(),
    {
        let mut i: usize = 0;
        while i < self.robots.len()
            invariant
                i <= self.robots@.len(),
                forall|j: int| 0 <= j < i ==> (#[trigger] self.robots@[j]).id != robot_id,
            decreases self.robots@.len() - i,
        {
            if self.robots[i].id == robot_id {
                proof {
                    lemma_slot_is_unique(self.robots@, robot_id, i as int);
                }
                return Some(i);
            }
            i += 1;
        }
        proof {
            lemma_no_slot(self.robots@, robot_id);
        }
        None
    }

    /// The first robot named `robot_id`.
    pub fn robot(&self, robot_id: RobotId) -> (found: Option<&Robot>)
        ensures
            match found {
                Some(robot) => slot_of(self.robots@, robot_id) matches Some(slot) && *robot
                    == self.robots@[slot],
                None => slot_of(self.robots@, robot_id) is None,
            },
    {
        match self.robot_index(robot_id) {
            Some(slot) => Some(&self.robots[slot]),
            None => None,
        }
    }

    /// The first robot named `robot_id`, to be changed in place.
    pub fn robot_mut(&mut self, robot_id: RobotId) -> (found: Option<&mut Robot>)
        ensures
            match found {
                Some(robot) => {
                    &&& slot_of(old(self).robots@, robot_id) matches Some(slot)
                    &&& *robot == old(self).robots@[slot]
                    &&& final(self).robots@ == old(self).robots@.update(slot, *final(robot))
                    &&& final(self).board == old(self).board
                },
                None => {
                    &&& slot_of(old(self).robots@, robot_id) is None
                    &&& *final(self) == *old(self)
                },
            },
    {
        match self.robot_index(robot_id) {
            Some(slot) => Some(&mut self.robots[slot]),
            None => None,
        }
    }

    /// The cell on which the robot named `robot_id` stands.
    pub fn robot_pos(&self, robot_id: RobotId) -> (pos: Option<LogicalPos>)
        ensures
            pos == pos_of(self.robots@, robot_id),
    {
        match self.robot(robot_id) {
            Some(robot) => robot.pos,
            None => None,
        }
    }

    /// Sets the robot named `robot` down on `pos`. Without such a robot
    /// nothing changes.
    pub fn place_robot(&mut self, robot: RobotId, pos: LogicalPos)
        ensures
            final(self).robots@ == placed(old(self).robots@, robot, pos),
            final(self).board == old(self).board,
    {
        match self.robot_mut(robot) {
            Some(found) => {
                found.pos = Some(pos);
            },
            None => {},
        }
    }

    /// The cells on which robots stand.
    pub open spec fn occupied(&self) -> Set<Cell> {
        occupied_by(self.robots@)
    }

    /// Whether a robot may be set down on `pos` now: `pos` is a cell of the
    /// board, it is not forbidden, and no robot stands on it.
    pub open spec fn is_free_start(&self, pos: LogicalPos) -> bool {
        &&& self.board@.contains(pos@)
        &&& !self.board@.moves(pos@).forbidden
        &&& !self.occupied().contains(pos@)
    }

    /// Whether a robot may be set down now on every cell of the board, so
    /// that whichever cell is drawn will do.
    pub open spec fn every_cell_is_free(&self) -> bool {
        forall|pos: LogicalPos|
            self.board@.contains(pos@) ==> #[trigger] self.is_free_start(pos)
    }

    /// Whether a robot may be set down on `pos` now.
    pub fn accepts_start(&self, pos: &LogicalPos) -> (accepted: bool)
        requires
            self.board.wf(),
        ensures
            accepted == self.is_free_start(*pos),
    {
        let start = match self.board.is_start_pos(pos) {
            Ok(start) => start,
            Err(_) => false,
        };
        if !start {
            return false;
        }
        let mut i: usize = 0;
        while i < self.robots.len()
            invariant
                i <= self.robots@.len(),
                forall|j: int|
                    0 <= j < i ==> (#[trigger] self.robots@[j]).pos != Some(*pos),
            decreases self.robots@.len() - i,
        {
            match self.robots[i].pos {
                Some(other) => {
                    if other == *pos {
                        assert(self.occupied().contains(pos@));
                        return false;
                    }
                },
                None => {},
            }
            i += 1;
        }
        true
    }

    /// Takes every robot off the board and sets each down again, the first
    /// robot first, on a cell drawn at random: a cell of the board that is
    /// not forbidden and on which no other robot stands. A robot for which
    /// no such cell was drawn stays off the board. The first robot finds the
    /// board empty: where the board has cells and none of them is forbidden,
    /// it is set down whatever is drawn. For the robots after it chance
    /// decides.
    pub fn reset_rand_pos(&mut self)
        requires
            old(self).board.wf(),
        ensures
            final(self).board == old(self).board,
            same_names(final(self).robots@, old(self).robots@),
            well_placed(final(self).robots@, final(self).board@),
            final(self).robots@.len() > 0 && final(self).board@.side > 0 && no_cell_is_forbidden(
                final(self).board@,
            ) ==> final(self).robots@[0].pos is Some,
    {
        let mut i: usize = 0;
        while i < self.robots.len()
            invariant
                i <= self.robots@.len(),
                self.board == old(self).board,
                same_names(self.robots@, old(self).robots@),
                forall|j: int| 0 <= j < i ==> (#[trigger] self.robots@[j]).pos is None,
            decreases self.robots@.len() - i,
        {
            self.robots[i].pos = None;
            i += 1;
        }
        let mut i: usize = 0;
        while i < self.robots.len()
            invariant
                i <= self.robots@.len(),
                self.board == old(self).board,
                self.board.wf(),
                same_names(self.robots@, old(self).robots@),
                forall|j: int|
                    i <= j < self.robots@.len() ==> (#[trigger] self.robots@[j]).pos is None,
                well_placed(self.robots@, self.board@),
                i > 0 && self.board@.side > 0 && no_cell_is_forbidden(self.board@)
                    ==> self.robots@[0].pos is Some,
            decreases self.robots@.len() - i,
        {
            proof {
                if i == 0 && no_cell_is_forbidden(self.board@) {
                    // No robot stands on the board yet, so every cell will do.
                    assert forall|pos: LogicalPos|
                        self.board@.contains(pos@) implies #[trigger] self.is_free_start(pos) by {
                        assert(!self.board@.moves(pos@).forbidden);
                        if self.occupied().contains(pos@) {
                            let j = choose|j: int|
                                0 <= j < self.robots@.len() && (#[trigger] self.robots@[j]).pos
                                    is Some && self.robots@[j].pos.unwrap()@ == pos@;
                            assert(self.robots@[j].pos is None);
                        }
                    }
                }
            }
            let found = self.find_start_pos();
            proof {
                if found is Some {
                    let pos = found.unwrap();
                    assert forall|j: int| 0 <= j < self.robots@.len() implies (
                    #[trigger] self.robots@[j]).pos != Some(pos) by {
                        if self.robots@[j].pos == Some(pos) {
                            assert(self.occupied().contains(pos@));
                        }
                    }
                }
            }
            self.robots[i].pos = found;
            i += 1;
        }
    }

    /// Draws cells at random until one is found on which a robot may be set
    /// down now, and gives up after `START_POS_TRIES` draws. On a board
    /// without cells there is nothing to draw. Where every cell of the board
    /// will do, the first draw is taken, so that a cell is found whatever is
    /// drawn; where some cell will not do, chance decides.
    pub fn find_start_pos(&self) -> (found: Option<LogicalPos>)
        requires
            self.board.wf(),
        ensures
            found matches Some(pos) ==> self.is_free_start(pos),
            self.board@.side == 0 ==> found is None,
            self.board@.side > 0 && self.every_cell_is_free() ==> found is Some,
    {
        let side_length = self.board.side_length().0;
        if side_length == 0 {
            return None;
        }
        let mut tries: usize = 0;
        while tries < START_POS_TRIES
            invariant
                self.board.wf(),
                side_length > 0,
                side_length == self.board@.side,
                tries > 0 ==> !self.every_cell_is_free(),
            decreases START_POS_TRIES - tries,
        {
            let pos = LogicalPos::rand(side_length, side_length);
            if self.accepts_start(&pos) {
                return Some(pos);
            }
            assert(self.board@.contains(pos@) && !self.is_free_start(pos));
            tries += 1;
        }
        None
    }

    /// The cell on which a robot that slides from `source_pos` in direction
    /// `way` comes to rest: the last cell before a wall, the edge of the
    /// board or another robot. From a position that is not on the board
    /// nothing slides.
    pub fn cast_ray(&self, source_pos: &LogicalPos, way: Way) -> (rest: LogicalPos)
        requires
            self.board.wf(),
        ensures
            rest@ == self.board@.stop(self.occupied(), source_pos@, way),
            self.board@.contains(source_pos@) ==> self.board@.contains(rest@),
    {
        let mut best = match self.board.hit_from(source_pos, way) {
            Ok(hit) => hit,
            Err(_) => {
                assert(source_pos@.step(way, 0) == source_pos@);
                return *source_pos;
            },
        };
        let ghost free = self.board@.run(Set::empty(), source_pos@, way) as int;
        proof {
            self.board.lemma_side_fits();
            law_run_counts_free_steps(self.board@, Set::empty(), source_pos@, way);
        }
        let mut i: usize = 0;
        while i < self.robots.len()
            invariant
                i <= self.robots@.len(),
                self.board.wf(),
                self.board@.contains(source_pos@),
                self.board@.side <= isize::MAX,
                0 <= best.distance <= free,
                best.pos@ == source_pos@.step(way, best.distance as int),
                forall|j: int|
                    0 <= j < i && in_the_way(
                        #[trigger] self.robots@[j],
                        self.board@,
                        source_pos@,
                        way,
                    ) ==> best.distance < source_pos@.ahead(self.robots@[j].pos.unwrap()@, way),
                best.distance == free || exists|j: int|
                    0 <= j < i && (#[trigger] self.robots@[j]).pos is Some
                        && self.robots@[j].pos.unwrap()@ == source_pos@.step(
                        way,
                        best.distance + 1,
                    ),
            decreases self.robots@.len() - i,
        {
            if let Some(pos) = self.robots[i].pos {
                if pos != *source_pos && self.board.pos_exists(&pos) {
                    if let Some(hit) = source_pos.find_hit_to(&pos, way) {
                        if hit.distance < best.distance {
                            best = hit;
                        }
                    }
                }
            }
            i += 1;
        }
        proof {
            let steps = best.distance as int;
            let occupied = self.occupied();
            assert forall|k: int| 0 <= k < steps implies self.board@.passes(
                occupied,
                #[trigger] source_pos@.step(way, k),
                way,
            ) by {
                assert(self.board@.passes(Set::empty(), source_pos@.step(way, k), way));
                let next = source_pos@.step(way, k).step(way, 1);
                assert(next == source_pos@.step(way, k + 1));
                if occupied.contains(next) {
                    let j = choose|j: int|
                        0 <= j < self.robots@.len() && (#[trigger] self.robots@[j]).pos is Some
                            && self.robots@[j].pos.unwrap()@ == next;
                    assert(source_pos@.ahead(next, way) == k + 1);
                }
            }
            if steps != free {
                let j = choose|j: int|
                    0 <= j < self.robots@.len() && (#[trigger] self.robots@[j]).pos is Some
                        && self.robots@[j].pos.unwrap()@ == source_pos@.step(way, steps + 1);
                assert(source_pos@.step(way, steps).step(way, 1) == source_pos@.step(
                    way,
                    steps + 1,
                ));
                assert(occupied.contains(self.robots@[j].pos.unwrap()@));
            }
            lemma_first_stop(self.board@, occupied, source_pos@, way, steps);
            law_run_counts_free_steps(self.board@, occupied, source_pos@, way);
        }
        best.pos
    }
}

} // verus!
