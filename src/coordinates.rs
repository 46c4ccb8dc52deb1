use vstd::prelude::*;
use vstd::string::StrSliceExecFns;

verus! {

/// One of the eight unit compass vectors.
#[derive(Debug, Clone, Copy, PartialEq, Eq, Structural)]
pub enum Direction {
    North,
    NorthEast,
    East,
    SouthEast,
    South,
    SouthWest,
    West,
    NorthWest,
}

/// The four orthogonal directions, in the order the generator scans them.
pub open spec fn non_diagonal_dirs() -> Seq<Direction> {
    seq![Direction::North, Direction::East, Direction::South, Direction::West]
}

/// The four diagonal directions, in the order the generator scans them.
pub open spec fn diagonal_dirs() -> Seq<Direction> {
    seq![Direction::NorthEast, Direction::SouthEast, Direction::SouthWest, Direction::NorthWest]
}

/// All eight directions: the orthogonal ones first.
pub open spec fn all_dirs() -> Seq<Direction> {
    non_diagonal_dirs() + diagonal_dirs()
}

impl Direction {
    /// File component of the unit vector.
    pub open spec fn dx(self) -> int {
        match self {
            Direction::North => 0,
            Direction::NorthEast => 1,
            Direction::East => 1,
            Direction::SouthEast => 1,
            Direction::South => 0,
            Direction::SouthWest => -1,
            Direction::West => -1,
            Direction::NorthWest => -1,
        }
    }

    /// Rank component of the unit vector.
    pub open spec fn dy(self) -> int {
        match self {
            Direction::North => 1,
            Direction::NorthEast => 1,
            Direction::East => 0,
            Direction::SouthEast => -1,
            Direction::South => -1,
            Direction::SouthWest => -1,
            Direction::West => 0,
            Direction::NorthWest => 1,
        }
    }

    /// The direction pointing the other way.
    pub open spec fn opposite(self) -> Direction {
        match self {
            Direction::North => Direction::South,
            Direction::NorthEast => Direction::SouthWest,
            Direction::East => Direction::West,
            Direction::SouthEast => Direction::NorthWest,
            Direction::South => Direction::North,
            Direction::SouthWest => Direction::NorthEast,
            Direction::West => Direction::East,
            Direction::NorthWest => Direction::SouthEast,
        }
    }

    /// Equal or exactly opposite.
    pub open spec fn same_axis(self, other: Direction) -> bool {
        (self.dx() == other.dx() && self.dy() == other.dy())
            || (self.dx() == -other.dx() && self.dy() == -other.dy())
    }

    fn to_x_y(&self) -> (r: (i8, i8))
        ensures
            r.0 as int == self.dx(),
            r.1 as int == self.dy(),
    {
        match self {
            Direction::North => (0, 1),
            Direction::NorthEast => (1, 1),
            Direction::East => (1, 0),
            Direction::SouthEast => (1, -1),
            Direction::South => (0, -1),
            Direction::SouthWest => (-1, -1),
            Direction::West => (-1, 0),
            Direction::NorthWest => (-1, 1),
        }
    }

    /// North, East, South, West.
    pub fn all_non_diagonal() -> (r: Vec<Direction>)
        ensures
            r@ == non_diagonal_dirs(),
    {
        let r = vec![Direction::North, Direction::East, Direction::South, Direction::West];
        assert(r@ =~= non_diagonal_dirs());
        r
    }

    /// NorthEast, SouthEast, SouthWest, NorthWest.
    pub fn all_diagonal() -> (r: Vec<Direction>)
        ensures
            r@ == diagonal_dirs(),
    {
        let r = vec![
            Direction::NorthEast,
            Direction::SouthEast,
            Direction::SouthWest,
            Direction::NorthWest,
        ];
        assert(r@ =~= diagonal_dirs());
        r
    }

    /// The orthogonal directions followed by the diagonal ones.
    pub fn all() -> (r: Vec<Direction>)
        ensures
            r@ == all_dirs(),
    {
        let mut dirs = Self::all_non_diagonal();
        let mut diag = Self::all_diagonal();
        dirs.append(&mut diag);
        dirs
    }

    /// The two directions are equal or exactly opposite.
    pub fn is_same_axis(&self, other: &Direction) -> (r: bool)
        ensures
            r == self.same_axis(*other),
    {
        let (x, y) = self.to_x_y();
        let (xo, yo) = other.to_x_y();
        x == xo && y == yo || x == -xo && y == -yo
    }
}

/// A coordinate given where one was not valid: a file or rank outside
/// 0..=7, or text that is not a letter A-H followed by a digit 1-8.
#[derive(Debug, Clone, Copy, PartialEq, Eq, Structural)]
pub enum CoordinateError {
    InvalidCoordinate,
}

/// A square of the board: file `x` (A = 0) and rank `y` (1 = 0).
#[derive(Debug, Clone, Copy, PartialEq, Eq, Hash, Structural)]
pub struct Position {
    pub x: u8,
    pub y: u8,
}

/// The letter A-H and digit 1-8 that name a square.
pub open spec fn is_coordinate_text(s: Seq<char>) -> bool {
    &&& s.len() == 2
    &&& 'A' <= s[0] <= 'H'
    &&& '1' <= s[1] <= '8'
}

impl Position {
    /// Both coordinates lie on the board.
    pub open spec fn wf(self) -> bool {
        self.x <= 7 && self.y <= 7
    }

    /// Slot of this square in a rank-major board of 64 squares.
    pub open spec fn index(self) -> int {
        self.y * 8 + self.x
    }

    /// The square `n` steps from this one along `d`, if it is on the board.
    pub open spec fn shifted(self, d: Direction, n: int) -> Option<Position> {
        let x = self.x + d.dx() * n;
        let y = self.y + d.dy() * n;
        if 0 <= x <= 7 && 0 <= y <= 7 {
            Some(Position { x: x as u8, y: y as u8 })
        } else {
            None
        }
    }

    /// The square that coordinate text names.
    pub open spec fn of_text(s: Seq<char>) -> Position {
        Position { x: (s[0] as int - 'A' as int) as u8, y: (s[1] as int - '1' as int) as u8 }
    }

    /// The square at file `x`, rank `y`, or an error when either lies
    /// outside 0..=7.
    pub fn new(x: u8, y: u8) -> (r: Result<Position, CoordinateError>)
        ensures
            r is Ok <==> x <= 7 && y <= 7,
            r is Ok ==> r->Ok_0 == (Position { x, y }),
            r is Err ==> r->Err_0 == CoordinateError::InvalidCoordinate,
    {
        match Self::new_checked(x, y) {
            Some(p) => Ok(p),
            None => Err(CoordinateError::InvalidCoordinate),
        }
    }

    /// The square at file `x`, rank `y`, if both lie in 0..=7.
    pub fn new_checked(x: u8, y: u8) -> (r: Option<Position>)
        ensures
            r is Some <==> x <= 7 && y <= 7,
            r is Some ==> r->Some_0 == (Position { x, y }),
    {
        if x <= 7 && y <= 7 {
            Some(Position { x, y })
        } else {
            None
        }
    }

    /// Parses a letter A-H (the file) followed by a digit 1-8 (the rank);
    /// anything else is an invalid coordinate.
    pub fn from_str(text: &str) -> (r: Result<Position, CoordinateError>)
        ensures
            r is Ok <==> is_coordinate_text(text@),
            r is Ok ==> r->Ok_0 == Position::of_text(text@) && r->Ok_0.wf(),
            r is Err ==> r->Err_0 == CoordinateError::InvalidCoordinate,
    {
        if text.unicode_len() != 2 {
            return Err(CoordinateError::InvalidCoordinate);
        }
        let file = text.get_char(0);
        let rank = text.get_char(1);
        if 'A' <= file && file <= 'H' && '1' <= rank && rank <= '8' {
            let x = (file as u32 - 'A' as u32) as u8;
            let y = (rank as u32 - '1' as u32) as u8;
            Self::new(x, y)
        } else {
            Err(CoordinateError::InvalidCoordinate)
        }
    }

    /// The square `amount` steps along `dir` (backwards for a negative
    /// amount), or `None` when that lies off the board.
    pub fn moved(&self, dir: Direction, amount: i8) -> (r: Option<Position>)
        ensures
            r == self.shifted(dir, amount as int),
    {
        let (xdir, ydir) = dir.to_x_y();
        let x: i16 = self.x as i16 + scaled(xdir, amount);
        let y: i16 = self.y as i16 + scaled(ydir, amount);
        if 0 <= x && x <= 7 && 0 <= y && y <= 7 {
            Some(Position { x: x as u8, y: y as u8 })
        } else {
            None
        }
    }
}

/// `unit * amount` for a unit component in -1..=1.
fn scaled(unit: i8, amount: i8) -> (r: i16)
    requires
        -1 <= unit <= 1,
    ensures
        r as int == unit as int * amount as int,
        -128 <= r <= 128,
{
    if unit == 0 {
        assert(unit as int * amount as int == 0) by (nonlinear_arith)
            requires
                unit == 0,
        ;
        0
    } else if unit == 1 {
        assert(unit as int * amount as int == amount as int) by (nonlinear_arith)
            requires
                unit == 1,
        ;
        amount as i16
    } else {
        assert(unit as int * amount as int == -(amount as int)) by (nonlinear_arith)
            requires
                unit == -1,
        ;
        -(amount as i16)
    }
}

/// Stepping `n` squares along a direction and then `n` squares back along
/// its opposite returns to the starting square.
pub proof fn lemma_moved_then_back(p: Position, d: Direction, n: i8)
    requires
        p.wf(),
        p.shifted(d, n as int) is Some,
    ensures
        p.shifted(d, n as int)->Some_0.shifted(d.opposite(), n as int) == Some(p),
{
}

} // verus!
