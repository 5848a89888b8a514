//! Positions, directions and quarter-turn rotations.

use vstd::prelude::*;
use crate::random::random_below;

verus! {

/// Number of cells on one side of a square board or tile.
#[derive(Debug, Clone, Copy, PartialEq, Eq, Structural)]
pub struct SideLength(pub usize);

/// A cell of the grid, counted from the top-left corner.
#[derive(Debug, Clone, Copy, PartialEq, Eq, Structural, Hash)]
pub struct LogicalPos {
    pub x: usize,
    pub y: usize,
}

/// The mathematical cell behind a `LogicalPos`; its coordinates are unbounded
/// so that a step off the board can still be named.
pub struct Cell {
    pub x: int,
    pub y: int,
}

impl View for LogicalPos {
    type V = Cell;

    open spec fn view(&self) -> Cell {
        Cell { x: self.x as int, y: self.y as int }
    }
}

/// Where a slide ends, and how many steps it took.
#[derive(Debug, Clone, Copy, PartialEq, Eq, Structural)]
pub struct Hit {
    pub pos: LogicalPos,
    pub distance: isize,
}

/// Mirroring of a picture along its axes.
#[derive(Debug, Clone, Copy, PartialEq, Eq, Structural)]
pub enum FlipAxis {
    NoFlip,
    FlipHorizontal,
    FlipVertical,
    FlipBoth,
}

/// One of the four rotations by a multiple of a quarter turn.
#[derive(Debug, Clone, Copy, PartialEq, Eq, Structural)]
pub enum RotateAngle {
    NoTurn,
    TurnLeft,
    TurnRight,
    HalfTurn,
}

/// A cardinal direction of travel. `Up` points towards row 0.
#[derive(Debug, Clone, Copy, PartialEq, Eq, Structural)]
pub enum Way {
    Up,
    Down,
    Left,
    Right,
}

impl RotateAngle {
    /// Number of clockwise quarter turns, in `0..4`.
    pub open spec fn turns(self) -> int {
        match self {
            RotateAngle::NoTurn => 0,
            RotateAngle::TurnRight => 1,
            RotateAngle::HalfTurn => 2,
            RotateAngle::TurnLeft => 3,
        }
    }

    /// The rotation that makes `n` clockwise quarter turns.
    pub open spec fn from_turns(n: int) -> RotateAngle {
        let r = n % 4;
        if r == 0 {
            RotateAngle::NoTurn
        } else if r == 1 {
            RotateAngle::TurnRight
        } else if r == 2 {
            RotateAngle::HalfTurn
        } else {
            RotateAngle::TurnLeft
        }
    }

    /// The rotation that does `self` first and `next` after it.
    pub open spec fn then_turn(self, next: RotateAngle) -> RotateAngle {
        RotateAngle::from_turns(self.turns() + next.turns())
    }

    /// The rotation that undoes `self`.
    pub open spec fn inverse(self) -> RotateAngle {
        RotateAngle::from_turns(4 - self.turns())
    }
}

impl Way {
    /// Position of the direction on the clock face: `Up` is 0 and the
    /// numbers grow clockwise.
    pub open spec fn clock(self) -> int {
        match self {
            Way::Up => 0,
            Way::Right => 1,
            Way::Down => 2,
            Way::Left => 3,
        }
    }

    /// The direction at position `n` on the clock face.
    pub open spec fn from_clock(n: int) -> Way {
        let r = n % 4;
        if r == 0 {
            Way::Up
        } else if r == 1 {
            Way::Right
        } else if r == 2 {
            Way::Down
        } else {
            Way::Left
        }
    }

    /// The direction reached by turning `self` by `angle`.
    pub open spec fn rotated(self, angle: RotateAngle) -> Way {
        Way::from_clock(self.clock() + angle.turns())
    }

    /// The direction that points the other way.
    pub open spec fn opposite(self) -> Way {
        self.rotated(RotateAngle::HalfTurn)
    }

    /// Turns the direction by `angle`.
    pub fn rotate(&self, angle: RotateAngle) -> (turned: Way)
        ensures
            turned == self.rotated(angle),
    {
        match (*self, angle) {
            (Way::Up, RotateAngle::NoTurn)
            | (Way::Down, RotateAngle::HalfTurn)
            | (Way::Left, RotateAngle::TurnRight)
            | (Way::Right, RotateAngle::TurnLeft) => Way::Up,
            (Way::Up, RotateAngle::HalfTurn)
            | (Way::Down, RotateAngle::NoTurn)
            | (Way::Left, RotateAngle::TurnLeft)
            | (Way::Right, RotateAngle::TurnRight) => Way::Down,
            (Way::Up, RotateAngle::TurnLeft)
            | (Way::Down, RotateAngle::TurnRight)
            | (Way::Left, RotateAngle::NoTurn)
            | (Way::Right, RotateAngle::HalfTurn) => Way::Left,
            (Way::Up, RotateAngle::TurnRight)
            | (Way::Down, RotateAngle::TurnLeft)
            | (Way::Left, RotateAngle::HalfTurn)
            | (Way::Right, RotateAngle::NoTurn) => Way::Right,
        }
    }
}

impl Way {
    /// True for the two directions that travel along a column.
    pub open spec fn vertical(self) -> bool {
        self == Way::Up || self == Way::Down
    }
}

impl Cell {
    /// The position with the coordinates of this cell, for a cell whose
    /// coordinates a position can hold.
    pub open spec fn pos(self) -> LogicalPos {
        LogicalPos { x: self.x as usize, y: self.y as usize }
    }

    /// The cell `n` steps away in direction `way`.
    pub open spec fn step(self, way: Way, n: int) -> Cell {
        match way {
            Way::Up => Cell { x: self.x, y: self.y - n },
            Way::Down => Cell { x: self.x, y: self.y + n },
            Way::Left => Cell { x: self.x - n, y: self.y },
            Way::Right => Cell { x: self.x + n, y: self.y },
        }
    }

    /// Signed number of steps from `self` to `other`, measured along `way`:
    /// positive when `other` lies ahead, negative when it lies behind.
    pub open spec fn ahead(self, other: Cell, way: Way) -> int {
        match way {
            Way::Up => self.y - other.y,
            Way::Down => other.y - self.y,
            Way::Left => self.x - other.x,
            Way::Right => other.x - self.x,
        }
    }

    /// True when `other` is on the line through `self` that runs along `way`.
    pub open spec fn in_line(self, other: Cell, way: Way) -> bool {
        if way.vertical() {
            self.x == other.x
        } else {
            self.y == other.y
        }
    }

    /// The direction in which `dest` is reached in a straight line, if the two
    /// cells differ in exactly one coordinate.
    pub open spec fn way_to(self, dest: Cell) -> Option<Way> {
        if self.x == dest.x && self.y > dest.y {
            Some(Way::Up)
        } else if self.x == dest.x && self.y < dest.y {
            Some(Way::Down)
        } else if self.y == dest.y && self.x > dest.x {
            Some(Way::Left)
        } else if self.y == dest.y && self.x < dest.x {
            Some(Way::Right)
        } else {
            None
        }
    }
}

impl LogicalPos {
    /// True when both coordinates can be held in an `isize`, so that any
    /// distance between two such positions can be too.
    pub open spec fn measurable(self) -> bool {
        self.x <= isize::MAX && self.y <= isize::MAX
    }

    /// A position drawn at random among the cells of a grid of `columns`
    /// columns and `rows` rows.
    pub fn rand(columns: usize, rows: usize) -> (pos: LogicalPos)
        requires
            columns > 0,
            rows > 0,
        ensures
            pos.x < columns,
            pos.y < rows,
    {
        let x = random_below(columns);
        let y = random_below(rows);
        LogicalPos { x, y }
    }

    /// Signed number of steps from `self` to `other` along `way`.
    pub fn distance_to(&self, other: &LogicalPos, way: Way) -> (steps: isize)
        requires
            self.measurable(),
            other.measurable(),
        ensures
            steps == self@.ahead(other@, way),
    {
        match way {
            Way::Up => self.y as isize - other.y as isize,
            Way::Down => other.y as isize - self.y as isize,
            Way::Left => self.x as isize - other.x as isize,
            Way::Right => other.x as isize - self.x as isize,
        }
    }

    /// The stop that an occupant standing on `other` forces on a slide from
    /// `self` along `way`: the cell just before `other`. There is none unless
    /// `other` is in line with `self` and strictly ahead of it.
    pub fn find_hit_to(&self, other: &LogicalPos, way: Way) -> (found: Option<Hit>)
        requires
            self.measurable(),
            other.measurable(),
        ensures
            found is Some <==> self@.in_line(other@, way) && self@.ahead(other@, way) > 0,
            found matches Some(hit) ==> {
                &&& hit.distance == self@.ahead(other@, way) - 1
                &&& hit.pos@ == self@.step(way, hit.distance as int)
            },
    {
        match way {
            Way::Up => {
                if self.x != other.x || self.y <= other.y {
                    None
                } else {
                    Some(
                        Hit {
                            pos: LogicalPos { x: self.x, y: other.y + 1 },
                            distance: self.y as isize - other.y as isize - 1,
                        },
                    )
                }
            },
            Way::Down => {
                if self.x != other.x || self.y >= other.y {
                    None
                } else {
                    Some(
                        Hit {
                            pos: LogicalPos { x: self.x, y: other.y - 1 },
                            distance: other.y as isize - self.y as isize - 1,
                        },
                    )
                }
            },
            Way::Left => {
                if self.y != other.y || self.x <= other.x {
                    None
                } else {
                    Some(
                        Hit {
                            pos: LogicalPos { x: other.x + 1, y: self.y },
                            distance: self.x as isize - other.x as isize - 1,
                        },
                    )
                }
            },
            Way::Right => {
                if self.y != other.y || self.x >= other.x {
                    None
                } else {
                    Some(
                        Hit {
                            pos: LogicalPos { x: other.x - 1, y: self.y },
                            distance: other.x as isize - self.x as isize - 1,
                        },
                    )
                }
            },
        }
    }

    /// The cells strictly between `self` and `dest`, nearest first. There is
    /// a path only when the two positions differ in exactly one coordinate.
    pub fn direct_path_to(&self, dest: &LogicalPos) -> (found: Option<Vec<LogicalPos>>)
        ensures
            found is Some <==> self@.way_to(dest@) is Some,
            found matches Some(path) ==> {
                let way = self@.way_to(dest@).unwrap();
                &&& path@.len() == self@.ahead(dest@, way) - 1
                &&& forall|i: int|
                    0 <= i < path@.len() ==> (#[trigger] path@[i])@ == self@.step(way, i + 1)
            },
    {
        if self.x == dest.x && self.y != dest.y {
            let mut path: Vec<LogicalPos> = Vec::new();
            if self.y < dest.y {
                let mut y: usize = self.y + 1;
                while y < dest.y
                    invariant
                        self.x == dest.x,
                        self.y < y <= dest.y,
                        path@.len() == y - self.y - 1,
                        forall|i: int|
                            0 <= i < path@.len() ==> (#[trigger] path@[i])@ == self@.step(
                                Way::Down,
                                i + 1,
                            ),
                    decreases dest.y - y,
                {
                    path.push(LogicalPos { x: self.x, y });
                    y += 1;
                }
            } else {
                let mut y: usize = self.y - 1;
                while y > dest.y
                    invariant
                        self.x == dest.x,
                        dest.y <= y < self.y,
                        path@.len() == self.y - y - 1,
                        forall|i: int|
                            0 <= i < path@.len() ==> (#[trigger] path@[i])@ == self@.step(
                                Way::Up,
                                i + 1,
                            ),
                    decreases y - dest.y,
                {
                    path.push(LogicalPos { x: self.x, y });
                    y -= 1;
                }
            }
            Some(path)
        } else if self.y == dest.y && self.x != dest.x {
            let mut path: Vec<LogicalPos> = Vec::new();
            if self.x < dest.x {
                let mut x: usize = self.x + 1;
                while x < dest.x
                    invariant
                        self.y == dest.y,
                        self.x < x <= dest.x,
                        path@.len() == x - self.x - 1,
                        forall|i: int|
                            0 <= i < path@.len() ==> (#[trigger] path@[i])@ == self@.step(
                                Way::Right,
                                i + 1,
                            ),
                    decreases dest.x - x,
                {
                    path.push(LogicalPos { x, y: self.y });
                    x += 1;
                }
            } else {
                let mut x: usize = self.x - 1;
                while x > dest.x
                    invariant
                        self.y == dest.y,
                        dest.x <= x < self.x,
                        path@.len() == self.x - x - 1,
                        forall|i: int|
                            0 <= i < path@.len() ==> (#[trigger] path@[i])@ == self@.step(
                                Way::Left,
                                i + 1,
                            ),
                    decreases x - dest.x,
                {
                    path.push(LogicalPos { x, y: self.y });
                    x -= 1;
                }
            }
            Some(path)
        } else {
            None
        }
    }
}

impl Cell {
    /// The cell onto which `self` is carried when a square of `extent` cells
    /// a side is turned by `angle` about its centre.
    pub open spec fn turned(self, angle: RotateAngle, extent: int) -> Cell {
        match angle {
            RotateAngle::NoTurn => self,
            RotateAngle::TurnRight => Cell { x: extent - self.y - 1, y: self.x },
            RotateAngle::HalfTurn => Cell { x: extent - self.x - 1, y: extent - self.y - 1 },
            RotateAngle::TurnLeft => Cell { x: self.y, y: extent - self.x - 1 },
        }
    }
}

/// The four rotations form a cyclic group of order four under `then_turn`:
/// `NoTurn` is neutral, every rotation has an inverse, composition is
/// associative, and four quarter turns to the right come back to `NoTurn`.
pub proof fn law_rotations_form_cyclic_group(a: RotateAngle, b: RotateAngle, c: RotateAngle)
    ensures
        RotateAngle::NoTurn.then_turn(a) == a,
        a.then_turn(RotateAngle::NoTurn) == a,
        a.then_turn(a.inverse()) == RotateAngle::NoTurn,
        a.inverse().then_turn(a) == RotateAngle::NoTurn,
        a.then_turn(b).then_turn(c) == a.then_turn(b.then_turn(c)),
        a.then_turn(b) == b.then_turn(a),
        RotateAngle::TurnRight.then_turn(RotateAngle::TurnRight) == RotateAngle::HalfTurn,
        RotateAngle::HalfTurn.then_turn(RotateAngle::TurnRight) == RotateAngle::TurnLeft,
        RotateAngle::TurnLeft.then_turn(RotateAngle::TurnRight) == RotateAngle::NoTurn,
{
}

/// Turning directions is an action of that group: `NoTurn` leaves a
/// direction alone, turning twice is turning once by the composed rotation,
/// and the inverse rotation brings the direction back.
pub proof fn law_rotation_acts_on_ways(way: Way, a: RotateAngle, b: RotateAngle)
    ensures
        way.rotated(RotateAngle::NoTurn) == way,
        way.rotated(a).rotated(b) == way.rotated(a.then_turn(b)),
        way.rotated(a).rotated(a.inverse()) == way,
{
}

/// Turning the cells of a square is an action of the same group, and a turn
/// keeps every cell of the square inside it.
pub proof fn law_rotation_acts_on_cells(cell: Cell, a: RotateAngle, b: RotateAngle, extent: int)
    ensures
        cell.turned(RotateAngle::NoTurn, extent) == cell,
        cell.turned(a, extent).turned(b, extent) == cell.turned(a.then_turn(b), extent),
        cell.turned(a, extent).turned(a.inverse(), extent) == cell,
        0 <= cell.x < extent && 0 <= cell.y < extent ==> {
            &&& 0 <= cell.turned(a, extent).x < extent
            &&& 0 <= cell.turned(a, extent).y < extent
        },
{
}

/// A step taken before a turn is the turned step taken after it.
pub proof fn law_rotation_carries_steps(cell: Cell, way: Way, n: int, a: RotateAngle, extent: int)
    ensures
        cell.step(way, n).turned(a, extent) == cell.turned(a, extent).step(way.rotated(a), n),
{
}

} // verus!
