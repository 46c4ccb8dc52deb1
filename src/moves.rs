use vstd::prelude::*;

use crate::coordinates::{all_dirs, diagonal_dirs, non_diagonal_dirs, Direction, Position};
use crate::game::{at, forward, hop, king_attacked, next_board, Board, Game};
use crate::pieces::{Color, Piece, PieceType};

verus! {

/// A state transition, as produced by the move generator.
#[derive(Debug, Clone, Copy)]
pub enum Move {
    NormalMove(NormalMove),
    EnPassante(EnPassante),
    Castling(Castling),
    Promotion(Promotion),
}

/// A piece goes from `origin` to `destination`, taking whatever stood there.
#[derive(Debug, Clone, Copy, PartialEq, Eq, Structural)]
pub struct NormalMove {
    pub origin: Position,
    pub destination: Position,
    pub throwing: Option<Piece>,
}

/// A pawn captures the enemy pawn beside it, landing behind that pawn.
#[derive(Debug, Clone, Copy)]
pub struct EnPassante {
    pub origin: Position,
    pub destination: Position,
    pub throwing: (Position, Piece),
}

/// King and rook move together.
#[derive(Debug, Clone, Copy, PartialEq, Eq, Structural)]
pub struct Castling {
    pub king_origin: Position,
    pub king_destination: Position,
    pub rook_origin: Position,
    pub rook_destination: Position,
}

/// A pawn is replaced by a new piece; applying one is not supported.
#[derive(Debug, Clone, Copy, PartialEq, Eq, Structural)]
pub struct Promotion {
    pub origin: Position,
    pub destination: Position,
    pub new_piece: Piece,
}

/// What a player asked for, before its legality is known.
#[derive(Debug, Clone, Copy, PartialEq, Eq, Structural)]
pub struct MoveRequest {
    pub origin: Position,
    pub destination: Position,
    pub promotion: Option<Piece>,
}

/// The square is empty or holds a piece of the other side.
pub open spec fn can_land(b: Board, p: Position, color: Color) -> bool {
    match at(b, p) {
        Some(pc) => pc.color != color,
        None => true,
    }
}

/// The squares a slider of `color` reaches along `d`, from step `k` up to
/// step `max`: empty squares, then an enemy piece (taken) or a friendly one
/// (not included) ends the ray.
pub open spec fn ray(
    b: Board,
    origin: Position,
    d: Direction,
    k: int,
    max: int,
    color: Color,
) -> Seq<Position>
    decreases max + 1 - k,
{
    if k < 1 || k > max {
        seq![]
    } else {
        match origin.shifted(d, k) {
            None => ray(b, origin, d, k + 1, max, color),
            Some(p) => match at(b, p) {
                None => seq![p] + ray(b, origin, d, k + 1, max, color),
                Some(pc) => if pc.color != color {
                    seq![p]
                } else {
                    seq![]
                },
            },
        }
    }
}

/// The rays along each of `dirs`, in order.
pub open spec fn slide(b: Board, origin: Position, dirs: Seq<Direction>, max: int, color: Color) -> Seq<
    Position,
>
    decreases dirs.len(),
{
    if dirs.len() == 0 {
        seq![]
    } else {
        slide(b, origin, dirs.drop_last(), max, color) + ray(b, origin, dirs.last(), 1, max, color)
    }
}

/// The squares a knight of `color` reaches by two steps along `d1` and then
/// one along each of `seconds` that is not on the axis of `d1`.
pub open spec fn knight_row(
    b: Board,
    origin: Position,
    d1: Direction,
    seconds: Seq<Direction>,
    color: Color,
) -> Seq<Position>
    decreases seconds.len(),
{
    if seconds.len() == 0 {
        seq![]
    } else {
        let prev = knight_row(b, origin, d1, seconds.drop_last(), color);
        let target = hop(origin, d1, 2, seconds.last(), 1);
        if !d1.same_axis(seconds.last()) && target is Some && can_land(b, target->Some_0, color) {
            prev.push(target->Some_0)
        } else {
            prev
        }
    }
}

/// The knight's targets, first direction by first direction.
pub open spec fn knight_jumps(b: Board, origin: Position, firsts: Seq<Direction>, color: Color) -> Seq<
    Position,
>
    decreases firsts.len(),
{
    if firsts.len() == 0 {
        seq![]
    } else {
        knight_jumps(b, origin, firsts.drop_last(), color) + knight_row(
            b,
            origin,
            firsts.last(),
            non_diagonal_dirs(),
            color,
        )
    }
}

/// Normal moves from `origin` to each of `ps`, taking what stands there.
pub open spec fn as_normal(b: Board, origin: Position, ps: Seq<Position>) -> Seq<Move> {
    ps.map_values(
        |p: Position| Move::NormalMove(NormalMove { origin, destination: p, throwing: at(b, p) }),
    )
}

/// The one-step advance of a pawn onto an empty square, and the two-step
/// advance of an unmoved pawn when both squares ahead are empty.
pub open spec fn pawn_steps(b: Board, origin: Position, pawn: Piece) -> Seq<Move> {
    let dir = forward(pawn.color);
    match origin.shifted(dir, 1) {
        Some(p1) => if at(b, p1) is None {
            let one = seq![Move::NormalMove(NormalMove { origin, destination: p1, throwing: None })];
            match origin.shifted(dir, 2) {
                Some(p2) => if !pawn.has_moved && at(b, p2) is None {
                    one.push(Move::NormalMove(NormalMove { origin, destination: p2, throwing: None }))
                } else {
                    one
                },
                None => one,
            }
        } else {
            seq![]
        },
        None => seq![],
    }
}

/// The diagonal capture of a pawn of `color` toward `side`.
pub open spec fn pawn_capture(b: Board, origin: Position, color: Color, side: Direction) -> Seq<
    Move,
> {
    match hop(origin, forward(color), 1, side, 1) {
        Some(q) => match at(b, q) {
            Some(pc) => if pc.color != color {
                seq![Move::NormalMove(NormalMove { origin, destination: q, throwing: Some(pc) })]
            } else {
                seq![]
            },
            None => seq![],
        },
        None => seq![],
    }
}

/// The last move was a normal move of two ranks that ended on `s`.
pub open spec fn double_step_onto(last: Option<Move>, s: Position) -> bool {
    match last {
        Some(Move::NormalMove(nm)) => nm.destination == s && (nm.destination.y - nm.origin.y == 2
            || nm.origin.y - nm.destination.y == 2),
        _ => false,
    }
}

/// The en passant capture of a pawn of `color` toward `side`: an enemy pawn
/// stands beside it and has just made a two-rank move onto that square.
pub open spec fn en_passant(
    b: Board,
    last: Option<Move>,
    origin: Position,
    color: Color,
    side: Direction,
) -> Seq<Move> {
    match origin.shifted(side, 1) {
        Some(s) => match at(b, s) {
            Some(pc) => if pc.piece_type == PieceType::Pawn && pc.color != color
                && double_step_onto(last, s) {
                match s.shifted(forward(color), 1) {
                    Some(e) => seq![
                        Move::EnPassante(EnPassante { origin, destination: e, throwing: (s, pc) }),
                    ],
                    None => seq![],
                }
            } else {
                seq![]
            },
            None => seq![],
        },
        None => seq![],
    }
}

/// All candidate moves of a pawn.
pub open spec fn pawn_moves(b: Board, last: Option<Move>, origin: Position, pawn: Piece) -> Seq<
    Move,
> {
    pawn_steps(b, origin, pawn) + pawn_capture(b, origin, pawn.color, Direction::West)
        + pawn_capture(b, origin, pawn.color, Direction::East) + en_passant(
        b,
        last,
        origin,
        pawn.color,
        Direction::West,
    ) + en_passant(b, last, origin, pawn.color, Direction::East)
}

/// The square a king of `color` starts on.
pub open spec fn home_of(color: Color) -> Position {
    match color {
        Color::White => Position { x: 4, y: 0 },
        Color::Black => Position { x: 4, y: 7 },
    }
}

/// The square holds a rook that has never moved.
pub open spec fn unmoved_rook(b: Board, p: Position) -> bool {
    match at(b, p) {
        Some(pc) => pc.piece_type == PieceType::Rook && !pc.has_moved,
        None => false,
    }
}

/// Castling toward file A from a king on file E of rank `y`.
pub open spec fn castle_left(b: Board, y: u8) -> Option<Move> {
    if at(b, Position { x: 3, y }) is None && at(b, Position { x: 2, y }) is None && at(
        b,
        Position { x: 1, y },
    ) is None && unmoved_rook(b, Position { x: 0, y }) {
        Some(
            Move::Castling(
                Castling {
                    king_origin: Position { x: 4, y },
                    king_destination: Position { x: 2, y },
                    rook_origin: Position { x: 0, y },
                    rook_destination: Position { x: 3, y },
                },
            ),
        )
    } else {
        None
    }
}

/// Castling toward file H from a king on file E of rank `y`.
pub open spec fn castle_right(b: Board, y: u8) -> Option<Move> {
    if at(b, Position { x: 5, y }) is None && at(b, Position { x: 6, y }) is None
        && unmoved_rook(b, Position { x: 7, y }) {
        Some(
            Move::Castling(
                Castling {
                    king_origin: Position { x: 4, y },
                    king_destination: Position { x: 6, y },
                    rook_origin: Position { x: 7, y },
                    rook_destination: Position { x: 5, y },
                },
            ),
        )
    } else {
        None
    }
}

/// The moves an option holds.
pub open spec fn listed(o: Option<Move>) -> Seq<Move> {
    match o {
        Some(m) => seq![m],
        None => seq![],
    }
}

/// Castling candidates of `king` on `origin`: none once it has moved or
/// when it is off its home square.
pub open spec fn castling_moves(b: Board, origin: Position, king: Piece) -> Seq<Move> {
    if king.has_moved || origin != home_of(king.color) {
        seq![]
    } else {
        listed(castle_left(b, origin.y)) + listed(castle_right(b, origin.y))
    }
}

/// The pseudo-legal moves of the piece on `origin`, in generation order.
pub open spec fn candidates(b: Board, last: Option<Move>, origin: Position) -> Seq<Move> {
    match at(b, origin) {
        None => seq![],
        Some(pc) => match pc.piece_type {
            PieceType::King => as_normal(b, origin, slide(b, origin, all_dirs(), 1, pc.color))
                + castling_moves(b, origin, pc),
            PieceType::Queen => as_normal(b, origin, slide(b, origin, all_dirs(), 7, pc.color)),
            PieceType::Rook => as_normal(
                b,
                origin,
                slide(b, origin, non_diagonal_dirs(), 7, pc.color),
            ),
            PieceType::Bishop => as_normal(b, origin, slide(b, origin, diagonal_dirs(), 7, pc.color)),
            PieceType::Knight => as_normal(
                b,
                origin,
                knight_jumps(b, origin, non_diagonal_dirs(), pc.color),
            ),
            PieceType::Pawn => pawn_moves(b, last, origin, pc),
        },
    }
}

/// Applying the move leaves the king of `color` out of check.
pub open spec fn keeps_king_safe(b: Board, m: Move, color: Color) -> bool {
    match next_board(b, m) {
        Ok(b2) => !king_attacked(b2, color),
        Err(_) => false,
    }
}

/// The moves of `ms` that keep the king of `color` safe, in order.
pub open spec fn keep_safe(b: Board, ms: Seq<Move>, color: Color) -> Seq<Move>
    decreases ms.len(),
{
    if ms.len() == 0 {
        seq![]
    } else {
        let prev = keep_safe(b, ms.drop_last(), color);
        if keeps_king_safe(b, ms.last(), color) {
            prev.push(ms.last())
        } else {
            prev
        }
    }
}

/// The legal moves of the piece on `origin`; none for an empty square or
/// a square off the board.
pub open spec fn legal_moves(b: Board, last: Option<Move>, origin: Position) -> Seq<Move> {
    if !origin.wf() {
        seq![]
    } else {
        match at(b, origin) {
            None => seq![],
            Some(pc) => keep_safe(b, candidates(b, last, origin), pc.color),
        }
    }
}

/// Where each of the moves ends.
pub open spec fn targets(ms: Seq<Move>) -> Seq<Position> {
    ms.map_values(|m: Move| m.target())
}

/// The first of `ms` that answers the request.
pub open spec fn first_answer(ms: Seq<Move>, req: MoveRequest) -> Option<Move>
    decreases ms.len(),
{
    if ms.len() == 0 {
        None
    } else if req.answered_by(ms[0]) {
        Some(ms[0])
    } else {
        first_answer(ms.drop_first(), req)
    }
}

/// Every move names squares of the board only.
pub open spec fn all_wf(ms: Seq<Move>) -> bool {
    forall|i: int| 0 <= i < ms.len() ==> (#[trigger] ms[i]).wf()
}

/// Every position lies on the board.
pub open spec fn all_on_board(ps: Seq<Position>) -> bool {
    forall|i: int| 0 <= i < ps.len() ==> (#[trigger] ps[i]).wf()
}

impl Move {
    /// Every square the move names lies on the board.
    pub open spec fn wf(self) -> bool {
        match self {
            Move::NormalMove(m) => m.origin.wf() && m.destination.wf(),
            Move::EnPassante(m) => m.origin.wf() && m.destination.wf() && m.throwing.0.wf(),
            Move::Castling(m) => m.king_origin.wf() && m.king_destination.wf()
                && m.rook_origin.wf() && m.rook_destination.wf(),
            Move::Promotion(m) => m.origin.wf() && m.destination.wf(),
        }
    }

    /// The square the moving piece (the king, for castling) ends on.
    pub open spec fn target(self) -> Position {
        match self {
            Move::NormalMove(m) => m.destination,
            Move::EnPassante(m) => m.destination,
            Move::Castling(m) => m.king_destination,
            Move::Promotion(m) => m.destination,
        }
    }

    /// The pieces the move carries, each from one square to another: the
    /// mover, and for castling the rook after the king.
    pub open spec fn displaced(self) -> Seq<(Position, Position)> {
        match self {
            Move::NormalMove(m) => seq![(m.origin, m.destination)],
            Move::EnPassante(m) => seq![(m.origin, m.destination)],
            Move::Castling(m) => seq![
                (m.king_origin, m.king_destination),
                (m.rook_origin, m.rook_destination),
            ],
            Move::Promotion(m) => seq![(m.origin, m.destination)],
        }
    }

    /// The square of the piece the move takes, if it takes one.
    pub open spec fn captured_square(self) -> Option<Position> {
        match self {
            Move::NormalMove(m) => match m.throwing {
                Some(_) => Some(m.destination),
                None => None,
            },
            Move::EnPassante(m) => Some(m.throwing.0),
            Move::Castling(_) => None,
            Move::Promotion(_) => None,
        }
    }

    /// Each piece the move carries, as (from, to).
    pub fn displacements(&self) -> (r: Vec<(Position, Position)>)
        ensures
            r@ == self.displaced(),
    {
        let r = match self {
            Move::NormalMove(m) => vec![(m.origin, m.destination)],
            Move::EnPassante(m) => vec![(m.origin, m.destination)],
            Move::Castling(m) => vec![
                (m.king_origin, m.king_destination),
                (m.rook_origin, m.rook_destination),
            ],
            Move::Promotion(m) => vec![(m.origin, m.destination)],
        };
        assert(r@ =~= self.displaced());
        r
    }

    /// The square of the piece the move takes, if it takes one.
    pub fn captured_at(&self) -> (r: Option<Position>)
        ensures
            r == self.captured_square(),
    {
        match self {
            Move::NormalMove(m) => match m.throwing {
                Some(_) => Some(m.destination),
                None => None,
            },
            Move::EnPassante(m) => Some(m.throwing.0),
            Move::Castling(_) => None,
            Move::Promotion(_) => None,
        }
    }

    /// The square the moving piece (the king, for castling) ends on.
    pub fn destination(&self) -> (r: Position)
        ensures
            r == self.target(),
    {
        match self {
            Move::NormalMove(m) => m.destination,
            Move::EnPassante(m) => m.destination,
            Move::Castling(m) => m.king_destination,
            Move::Promotion(m) => m.destination,
        }
    }
}

impl MoveRequest {
    /// A request to move the piece on `origin` to `destination`.
    pub fn new(origin: Position, destination: Position, promotion: Option<Piece>) -> (r: MoveRequest)
        ensures
            r == (MoveRequest { origin, destination, promotion }),
    {
        MoveRequest { origin, destination, promotion }
    }

    /// The move answers this request.
    pub open spec fn answered_by(self, m: Move) -> bool {
        match m {
            Move::NormalMove(n) => n.origin == self.origin && n.destination == self.destination,
            Move::EnPassante(e) => e.origin == self.origin && e.destination == self.destination,
            Move::Castling(c) => c.king_origin == self.origin && c.king_destination
                == self.destination,
            Move::Promotion(p) => p.origin == self.origin && p.destination == self.destination
                && self.promotion == Some(p.new_piece),
        }
    }

    fn is_answered_by(&self, m: &Move) -> (r: bool)
        ensures
            r == self.answered_by(*m),
    {
        match m {
            Move::NormalMove(n) => n.origin == self.origin && n.destination == self.destination,
            Move::EnPassante(e) => e.origin == self.origin && e.destination == self.destination,
            Move::Castling(c) => c.king_origin == self.origin && c.king_destination
                == self.destination,
            Move::Promotion(p) => p.origin == self.origin && p.destination == self.destination
                && self.promotion == Some(p.new_piece),
        }
    }
}


/// The square is empty or holds a piece of the other side.
fn is_valid_destination(destination: Position, color: Color, game: &Game) -> (r: bool)
    requires
        game.wf(),
        destination.wf(),
    ensures
        r == can_land(game.squares(), destination, color),
{
    match game.piece_at(destination) {
        Some(pc) => color != pc.color,
        None => true,
    }
}

/// The square holds a piece of the other side.
fn is_enemy_at_destination(destination: Position, color: Color, game: &Game) -> (r: bool)
    requires
        game.wf(),
        destination.wf(),
    ensures
        r == (at(game.squares(), destination) is Some && at(game.squares(), destination)->Some_0.color
            != color),
{
    match game.piece_at(destination) {
        Some(pc) => color != pc.color,
        None => false,
    }
}

/// Appends the ray from `origin` along `dir`, up to `max_steps` steps.
fn push_ray(
    out: &mut Vec<Position>,
    origin: Position,
    dir: Direction,
    max_steps: i8,
    color: Color,
    game: &Game,
)
    requires
        game.wf(),
        1 <= max_steps <= 7,
        all_on_board(old(out)@),
    ensures
        final(out)@ == old(out)@ + ray(game.squares(), origin, dir, 1, max_steps as int, color),
        all_on_board(final(out)@),
{
    let ghost b = game.squares();
    let ghost start = out@;
    let mut distance: i8 = 1;
    while distance <= max_steps
        invariant
            1 <= distance <= max_steps + 1,
            max_steps <= 7,
            game.wf(),
            b == game.squares(),
            start == old(out)@,
            all_on_board(out@),
            start + ray(b, origin, dir, 1, max_steps as int, color) == out@ + ray(
                b,
                origin,
                dir,
                distance as int,
                max_steps as int,
                color,
            ),
        decreases max_steps + 1 - distance,
    {
        match origin.moved(dir, distance) {
            None => {},
            Some(pos) => {
                if !is_valid_destination(pos, color, game) {
                    assert(ray(b, origin, dir, distance as int, max_steps as int, color) =~= seq![]);
                    assert(out@ + seq![] =~= out@);
                    return ;
                }
                let ghost prev = out@;
                out.push(pos);
                if is_enemy_at_destination(pos, color, game) {
                    assert(ray(b, origin, dir, distance as int, max_steps as int, color) =~= seq![pos]);
                    assert(prev + seq![pos] =~= out@);
                    return ;
                }
                assert(out@ + ray(b, origin, dir, distance + 1, max_steps as int, color) =~= (
                out@.drop_last() + (seq![pos] + ray(
                    b,
                    origin,
                    dir,
                    distance + 1,
                    max_steps as int,
                    color,
                ))));
            },
        }
        distance = distance + 1;
    }
    assert(out@ + seq![] =~= out@);
}

/// The squares a slider on `origin` reaches along `directions`, up to
/// `max_steps` steps each.
fn destinations(origin: Position, directions: &Vec<Direction>, max_steps: i8, game: &Game) -> (r: Vec<
    Position,
>)
    requires
        game.wf(),
        origin.wf(),
        1 <= max_steps <= 7,
        at(game.squares(), origin) is Some,
    ensures
        r@ == slide(
            game.squares(),
            origin,
            directions@,
            max_steps as int,
            at(game.squares(), origin)->Some_0.color,
        ),
        all_on_board(r@),
{
    let ghost b = game.squares();
    let color = match game.piece_at(origin) {
        Some(pc) => pc.color,
        None => Color::White,
    };
    let mut out: Vec<Position> = Vec::new();
    let mut i: usize = 0;
    while i < directions.len()
        invariant
            0 <= i <= directions@.len(),
            game.wf(),
            b == game.squares(),
            1 <= max_steps <= 7,
            color == at(b, origin)->Some_0.color,
            out@ == slide(b, origin, directions@.subrange(0, i as int), max_steps as int, color),
            all_on_board(out@),
        decreases directions@.len() - i,
    {
        push_ray(&mut out, origin, directions[i], max_steps, color, game);
        assert(directions@.subrange(0, i + 1).drop_last() =~= directions@.subrange(0, i as int));
        i = i + 1;
    }
    assert(directions@.subrange(0, directions@.len() as int) =~= directions@);
    out
}

/// The squares a knight on `origin` can jump to.
fn knight_destinations(origin: Position, game: &Game) -> (r: Vec<Position>)
    requires
        game.wf(),
        origin.wf(),
        at(game.squares(), origin) is Some,
    ensures
        r@ == knight_jumps(
            game.squares(),
            origin,
            non_diagonal_dirs(),
            at(game.squares(), origin)->Some_0.color,
        ),
        all_on_board(r@),
{
    let ghost b = game.squares();
    let ghost nd = non_diagonal_dirs();
    let color = match game.piece_at(origin) {
        Some(pc) => pc.color,
        None => Color::White,
    };
    let dirs = Direction::all_non_diagonal();
    let mut out: Vec<Position> = Vec::new();
    let mut i: usize = 0;
    while i < 4
        invariant
            0 <= i <= 4,
            game.wf(),
            b == game.squares(),
            dirs@ == nd,
            nd == non_diagonal_dirs(),
            color == at(b, origin)->Some_0.color,
            out@ == knight_jumps(b, origin, nd.subrange(0, i as int), color),
            all_on_board(out@),
        decreases 4 - i,
    {
        let ghost before = out@;
        let mut j: usize = 0;
        while j < 4
            invariant
                0 <= i < 4,
                0 <= j <= 4,
                game.wf(),
                b == game.squares(),
                dirs@ == nd,
                nd == non_diagonal_dirs(),
                out@ == before + knight_row(b, origin, nd[i as int], nd.subrange(0, j as int), color),
                all_on_board(out@),
            decreases 4 - j,
        {
            if !dirs[i].is_same_axis(&dirs[j]) {
                let target = match origin.moved(dirs[i], 2) {
                    Some(p) => p.moved(dirs[j], 1),
                    None => None,
                };
                match target {
                    Some(t) => {
                        if is_valid_destination(t, color, game) {
                            out.push(t);
                        }
                    },
                    None => {},
                }
            }
            assert(nd.subrange(0, j + 1).drop_last() =~= nd.subrange(0, j as int));
            assert(out@ =~= before + knight_row(
                b,
                origin,
                nd[i as int],
                nd.subrange(0, j + 1),
                color,
            ));
            j = j + 1;
        }
        assert(nd.subrange(0, 4) =~= nd);
        assert(nd.subrange(0, i + 1).drop_last() =~= nd.subrange(0, i as int));
        i = i + 1;
    }
    assert(nd.subrange(0, 4) =~= nd);
    out
}

/// Normal moves from `origin` to each of `positions`.
fn wrap_as_normal(positions: Vec<Position>, origin: Position, game: &Game) -> (r: Vec<Move>)
    requires
        game.wf(),
        origin.wf(),
        all_on_board(positions@),
    ensures
        r@ == as_normal(game.squares(), origin, positions@),
        all_wf(r@),
{
    let ghost b = game.squares();
    let mut out: Vec<Move> = Vec::new();
    let mut i: usize = 0;
    while i < positions.len()
        invariant
            0 <= i <= positions@.len(),
            game.wf(),
            b == game.squares(),
            origin.wf(),
            all_on_board(positions@),
            out@ =~= as_normal(b, origin, positions@.subrange(0, i as int)),
            all_wf(out@),
        decreases positions@.len() - i,
    {
        let pos = positions[i];
        out.push(
            Move::NormalMove(NormalMove { origin, destination: pos, throwing: game.piece_at(pos) }),
        );
        i = i + 1;
    }
    assert(positions@.subrange(0, positions@.len() as int) =~= positions@);
    out
}


/// Appends the diagonal capture toward `side`, if there is one.
fn push_pawn_capture(out: &mut Vec<Move>, origin: Position, color: Color, side: Direction, game: &Game)
    requires
        game.wf(),
        origin.wf(),
        all_wf(old(out)@),
    ensures
        final(out)@ == old(out)@ + pawn_capture(game.squares(), origin, color, side),
        all_wf(final(out)@),
{
    let dir = match color {
        Color::White => Direction::North,
        Color::Black => Direction::South,
    };
    let target = match origin.moved(dir, 1) {
        Some(p) => p.moved(side, 1),
        None => None,
    };
    match target {
        Some(q) => match game.piece_at(q) {
            Some(pc) => {
                if pc.color != color {
                    out.push(
                        Move::NormalMove(NormalMove { origin, destination: q, throwing: Some(pc) }),
                    );
                } else {
                    assert(old(out)@ + seq![] =~= out@);
                }
            },
            None => {
                assert(old(out)@ + seq![] =~= out@);
            },
        },
        None => {
            assert(old(out)@ + seq![] =~= out@);
        },
    }
}

/// Appends the en passant capture toward `side`, if there is one.
fn push_en_passant(out: &mut Vec<Move>, origin: Position, color: Color, side: Direction, game: &Game)
    requires
        game.wf(),
        origin.wf(),
        all_wf(old(out)@),
    ensures
        final(out)@ == old(out)@ + en_passant(game.squares(), game.previous(), origin, color, side),
        all_wf(final(out)@),
{
    assert(old(out)@ + seq![] =~= old(out)@);
    let dir = match color {
        Color::White => Direction::North,
        Color::Black => Direction::South,
    };
    let side_pos = match origin.moved(side, 1) {
        Some(p) => p,
        None => return ,
    };
    let piece = match game.piece_at(side_pos) {
        Some(pc) => pc,
        None => return ,
    };
    if piece.piece_type != PieceType::Pawn || piece.color == color {
        return ;
    }
    match game.previous_move() {
        Some(Move::NormalMove(normal_move)) => {
            let rank_change: i16 = normal_move.destination.y as i16 - normal_move.origin.y as i16;
            if normal_move.destination == side_pos && (rank_change == 2 || rank_change == -2) {
                match side_pos.moved(dir, 1) {
                    Some(behind) => {
                        out.push(
                            Move::EnPassante(
                                EnPassante { origin, destination: behind, throwing: (side_pos, piece) },
                            ),
                        );
                    },
                    None => {},
                }
            }
        },
        _ => {},
    }
}

/// The candidate moves of the pawn on `origin`.
fn pawn_destinations(origin: Position, game: &Game) -> (r: Vec<Move>)
    requires
        game.wf(),
        origin.wf(),
        at(game.squares(), origin) is Some,
    ensures
        r@ == pawn_moves(
            game.squares(),
            game.previous(),
            origin,
            at(game.squares(), origin)->Some_0,
        ),
        all_wf(r@),
{
    let ghost b = game.squares();
    let pawn = match game.piece_at(origin) {
        Some(pc) => pc,
        None => Piece::new(PieceType::Pawn, Color::White),
    };
    let color = pawn.color;
    let dir = match color {
        Color::White => Direction::North,
        Color::Black => Direction::South,
    };
    let mut out: Vec<Move> = Vec::new();
    match origin.moved(dir, 1) {
        Some(one_step_forward) => {
            if game.piece_at(one_step_forward).is_none() {
                out.push(
                    Move::NormalMove(
                        NormalMove { origin, destination: one_step_forward, throwing: None },
                    ),
                );
                if !pawn.has_moved {
                    match origin.moved(dir, 2) {
                        Some(two_step_forward) => {
                            if game.piece_at(two_step_forward).is_none() {
                                out.push(
                                    Move::NormalMove(
                                        NormalMove {
                                            origin,
                                            destination: two_step_forward,
                                            throwing: None,
                                        },
                                    ),
                                );
                            }
                        },
                        None => {},
                    }
                }
            }
        },
        None => {},
    }
    assert(out@ =~= pawn_steps(b, origin, pawn));
    push_pawn_capture(&mut out, origin, color, Direction::West, game);
    push_pawn_capture(&mut out, origin, color, Direction::East, game);
    push_en_passant(&mut out, origin, color, Direction::West, game);
    push_en_passant(&mut out, origin, color, Direction::East, game);
    out
}

/// Castling toward file A for the king on `origin`, on file E.
fn castling_left(origin: Position, game: &Game) -> (r: Option<Move>)
    requires
        game.wf(),
        origin.wf(),
        origin.x == 4,
    ensures
        r == castle_left(game.squares(), origin.y),
{
    let y = origin.y;
    if game.piece_at(Position { x: 3, y }).is_some() {
        return None;
    }
    if game.piece_at(Position { x: 2, y }).is_some() {
        return None;
    }
    if game.piece_at(Position { x: 1, y }).is_some() {
        return None;
    }
    if let Some(piece) = game.piece_at(Position { x: 0, y }) {
        if piece.piece_type == PieceType::Rook && !piece.has_moved {
            return Some(
                Move::Castling(
                    Castling {
                        king_origin: origin,
                        king_destination: Position { x: 2, y },
                        rook_origin: Position { x: 0, y },
                        rook_destination: Position { x: 3, y },
                    },
                ),
            );
        }
    }
    None
}

/// Castling toward file H for the king on `origin`, on file E.
fn castling_right(origin: Position, game: &Game) -> (r: Option<Move>)
    requires
        game.wf(),
        origin.wf(),
        origin.x == 4,
    ensures
        r == castle_right(game.squares(), origin.y),
{
    let y = origin.y;
    if game.piece_at(Position { x: 5, y }).is_some() {
        return None;
    }
    if game.piece_at(Position { x: 6, y }).is_some() {
        return None;
    }
    if let Some(piece) = game.piece_at(Position { x: 7, y }) {
        if piece.piece_type == PieceType::Rook && !piece.has_moved {
            return Some(
                Move::Castling(
                    Castling {
                        king_origin: origin,
                        king_destination: Position { x: 6, y },
                        rook_origin: Position { x: 7, y },
                        rook_destination: Position { x: 5, y },
                    },
                ),
            );
        }
    }
    None
}

/// The castling candidates of the king on `origin`.
fn castling_destinations(origin: Position, game: &Game) -> (r: Vec<Move>)
    requires
        game.wf(),
        origin.wf(),
        at(game.squares(), origin) is Some,
    ensures
        r@ == castling_moves(game.squares(), origin, at(game.squares(), origin)->Some_0),
        all_wf(r@),
{
    let mut out: Vec<Move> = Vec::new();
    let king = match game.piece_at(origin) {
        Some(pc) => pc,
        None => return out,
    };
    if king.has_moved {
        assert(out@ =~= seq![]);
        return out;
    }
    let expected_pos = match king.color {
        Color::White => Position { x: 4, y: 0 },
        Color::Black => Position { x: 4, y: 7 },
    };
    if expected_pos != origin {
        assert(out@ =~= seq![]);
        return out;
    }
    let left = castling_left(origin, game);
    if let Some(d) = left {
        out.push(d);
    }
    let right = castling_right(origin, game);
    if let Some(d) = right {
        out.push(d);
    }
    assert(out@ =~= listed(left) + listed(right));
    out
}

/// The legal moves of the piece on `origin`: its candidates that do not
/// leave its own king in check.
fn valid_destinations_with_special_cases(origin: Position, game: &Game) -> (r: Vec<Move>)
    requires
        game.wf(),
    ensures
        r@ == legal_moves(game.squares(), game.previous(), origin),
        all_wf(r@),
{
    let ghost b = game.squares();
    if !(origin.x <= 7 && origin.y <= 7) {
        return Vec::new();
    }
    let piece = match game.piece_at(origin) {
        Some(piece) => piece,
        None => return Vec::new(),
    };
    let pseudo = match piece.piece_type {
        PieceType::King => {
            let mut moves = wrap_as_normal(
                destinations(origin, &Direction::all(), 1, game),
                origin,
                game,
            );
            let mut castlings = castling_destinations(origin, game);
            moves.append(&mut castlings);
            moves
        },
        PieceType::Queen => wrap_as_normal(
            destinations(origin, &Direction::all(), 7, game),
            origin,
            game,
        ),
        PieceType::Rook => wrap_as_normal(
            destinations(origin, &Direction::all_non_diagonal(), 7, game),
            origin,
            game,
        ),
        PieceType::Bishop => wrap_as_normal(
            destinations(origin, &Direction::all_diagonal(), 7, game),
            origin,
            game,
        ),
        PieceType::Knight => wrap_as_normal(knight_destinations(origin, game), origin, game),
        PieceType::Pawn => pawn_destinations(origin, game),
    };
    assert(pseudo@ == candidates(b, game.previous(), origin));
    let mut out: Vec<Move> = Vec::new();
    let mut i: usize = 0;
    while i < pseudo.len()
        invariant
            0 <= i <= pseudo@.len(),
            game.wf(),
            b == game.squares(),
            all_wf(pseudo@),
            piece == at(b, origin)->Some_0,
            out@ == keep_safe(b, pseudo@.subrange(0, i as int), piece.color),
            all_wf(out@),
        decreases pseudo@.len() - i,
    {
        let mov = pseudo[i];
        match game.perform_move(mov) {
            Ok(after) => {
                if !after.is_king_in_check(piece.color) {
                    out.push(mov);
                }
            },
            Err(_) => {},
        }
        assert(pseudo@.subrange(0, i + 1).drop_last() =~= pseudo@.subrange(0, i as int));
        i = i + 1;
    }
    assert(pseudo@.subrange(0, pseudo@.len() as int) =~= pseudo@);
    out
}

/// The squares the piece on `origin` can legally move to, in generation
/// order; none for an empty square.
pub fn valid_destinations(origin: Position, game: &Game) -> (r: Vec<Position>)
    requires
        game.wf(),
    ensures
        r@ == targets(legal_moves(game.squares(), game.previous(), origin)),
        r@.len() == legal_moves(game.squares(), game.previous(), origin).len(),
{
    let moves = valid_destinations_with_special_cases(origin, game);
    let mut out: Vec<Position> = Vec::new();
    let mut i: usize = 0;
    while i < moves.len()
        invariant
            0 <= i <= moves@.len(),
            out@ =~= targets(moves@.subrange(0, i as int)),
        decreases moves@.len() - i,
    {
        out.push(moves[i].destination());
        i = i + 1;
    }
    assert(moves@.subrange(0, moves@.len() as int) =~= moves@);
    assert(out@ =~= targets(moves@));
    out
}

impl MoveRequest {
    /// The first legal move of the origin's piece that answers this request.
    pub fn to_move(&self, game: &Game) -> (r: Option<Move>)
        requires
            game.wf(),
        ensures
            r == first_answer(legal_moves(game.squares(), game.previous(), self.origin), *self),
            r is Some ==> r->Some_0.wf(),
    {
        let moves = valid_destinations_with_special_cases(self.origin, game);
        let ghost all = moves@;
        assert(all.subrange(0, all.len() as int) =~= all);
        let mut i: usize = 0;
        while i < moves.len()
            invariant
                0 <= i <= moves@.len(),
                moves@ == all,
                all == legal_moves(game.squares(), game.previous(), self.origin),
                all_wf(moves@),
                first_answer(all, *self) == first_answer(all.subrange(i as int, all.len() as int), *self),
            decreases moves@.len() - i,
        {
            let ghost rest = all.subrange(i as int, all.len() as int);
            assert(rest[0] == all[i as int]);
            if self.is_answered_by(&moves[i]) {
                assert(moves@[i as int].wf());
                return Some(moves[i]);
            }
            assert(rest.drop_first() =~= all.subrange(i + 1, all.len() as int));
            i = i + 1;
        }
        assert(all.subrange(i as int, all.len() as int) =~= seq![]);
        None
    }
}


/// What `keep_safe` keeps comes from its input and keeps the king safe.
proof fn lemma_keep_safe(b: Board, ms: Seq<Move>, color: Color)
    ensures
        forall|k: int|
            0 <= k < keep_safe(b, ms, color).len() ==> keeps_king_safe(
                b,
                #[trigger] keep_safe(b, ms, color)[k],
                color,
            ) && ms.contains(keep_safe(b, ms, color)[k]),
    decreases ms.len(),
{
    if ms.len() > 0 {
        lemma_keep_safe(b, ms.drop_last(), color);
        let prev = keep_safe(b, ms.drop_last(), color);
        assert forall|k: int| 0 <= k < prev.len() implies ms.contains(#[trigger] prev[k]) by {
            let w = choose|w: int| 0 <= w < ms.drop_last().len() && ms.drop_last()[w] == prev[k];
            assert(ms[w] == prev[k]);
        };
        assert(ms[ms.len() - 1] == ms.last());
    }
}

/// Every legal move of the piece on `origin` can be applied, and leaves
/// the king of that piece's side out of check; the square it ends on is
/// the matching entry of the destinations.
pub proof fn lemma_legal_moves_keep_king_safe(b: Board, last: Option<Move>, origin: Position, k: int)
    requires
        0 <= k < legal_moves(b, last, origin).len(),
    ensures
        at(b, origin) is Some,
        next_board(b, legal_moves(b, last, origin)[k]) is Ok,
        !king_attacked(
            next_board(b, legal_moves(b, last, origin)[k])->Ok_0,
            at(b, origin)->Some_0.color,
        ),
        targets(legal_moves(b, last, origin))[k] == legal_moves(b, last, origin)[k].target(),
{
    let pc = at(b, origin)->Some_0;
    lemma_keep_safe(b, candidates(b, last, origin), pc.color);
}

/// Every legal move of the piece on `origin` is made from `origin`.
pub(crate) proof fn lemma_legal_moves_made_from(b: Board, last: Option<Move>, origin: Position, k: int)
    requires
        0 <= k < legal_moves(b, last, origin).len(),
    ensures
        made_from(legal_moves(b, last, origin)[k], origin),
{
    let pc = at(b, origin)->Some_0;
    let cands = candidates(b, last, origin);
    lemma_keep_safe(b, cands, pc.color);
    lemma_candidates_made_from(b, last, origin);
    let w = choose|w: int| 0 <= w < cands.len() && cands[w] == legal_moves(b, last, origin)[k];
    assert(made_from(cands[w], origin));
}

/// No legal move of a piece that has already moved is a castling, wherever
/// that piece stands.
pub proof fn lemma_no_castling_after_moving(b: Board, last: Option<Move>, origin: Position, k: int)
    requires
        0 <= k < legal_moves(b, last, origin).len(),
        at(b, origin) is Some,
        at(b, origin)->Some_0.has_moved,
    ensures
        !(legal_moves(b, last, origin)[k] is Castling),
{
    let pc = at(b, origin)->Some_0;
    let cands = candidates(b, last, origin);
    lemma_keep_safe(b, cands, pc.color);
    let w = choose|w: int| 0 <= w < cands.len() && cands[w] == legal_moves(b, last, origin)[k];
    if pc.piece_type == PieceType::King {
        assert(castling_moves(b, origin, pc) =~= seq![]);
        assert(cands =~= as_normal(b, origin, slide(b, origin, all_dirs(), 1, pc.color)));
    } else if pc.piece_type == PieceType::Pawn {
        let s1 = pawn_steps(b, origin, pc);
        let s2 = pawn_capture(b, origin, pc.color, Direction::West);
        let s3 = pawn_capture(b, origin, pc.color, Direction::East);
        let s4 = en_passant(b, last, origin, pc.color, Direction::West);
        let s5 = en_passant(b, last, origin, pc.color, Direction::East);
        assert(no_castling(s1));
        assert(no_castling(s2));
        assert(no_castling(s3));
        assert(no_castling(s4));
        assert(no_castling(s5));
        lemma_no_castling_concat(s1, s2);
        lemma_no_castling_concat(s1 + s2, s3);
        lemma_no_castling_concat(s1 + s2 + s3, s4);
        lemma_no_castling_concat(s1 + s2 + s3 + s4, s5);
        assert(no_castling(cands));
    }
}

/// The first answer to a request is one of the moves.
pub proof fn lemma_first_answer_is_listed(ms: Seq<Move>, req: MoveRequest)
    requires
        first_answer(ms, req) is Some,
    ensures
        exists|k: int| 0 <= k < ms.len() && ms[k] == first_answer(ms, req)->Some_0,
    decreases ms.len(),
{
    if !req.answered_by(ms[0]) {
        lemma_first_answer_is_listed(ms.drop_first(), req);
        let k = choose|k: int|
            0 <= k < ms.drop_first().len() && ms.drop_first()[k] == first_answer(
                ms.drop_first(),
                req,
            )->Some_0;
        assert(ms[k + 1] == ms.drop_first()[k]);
    } else {
        assert(ms[0] == first_answer(ms, req)->Some_0);
    }
}

/// None of the moves is a castling.
spec fn no_castling(ms: Seq<Move>) -> bool {
    forall|i: int| 0 <= i < ms.len() ==> !(#[trigger] ms[i] is Castling)
}

proof fn lemma_no_castling_concat(a: Seq<Move>, c: Seq<Move>)
    requires
        no_castling(a),
        no_castling(c),
    ensures
        no_castling(a + c),
{
    assert forall|i: int| 0 <= i < (a + c).len() implies !(#[trigger] (a + c)[i] is Castling) by {
        if i >= a.len() {
            assert((a + c)[i] == c[i - a.len()]);
        }
    };
}


/// The move is made by the piece on `origin`, names squares of the board
/// only, and never takes or parks a piece on the square the mover ends on.
pub open spec fn made_from(m: Move, origin: Position) -> bool {
    &&& m.wf()
    &&& match m {
        Move::NormalMove(n) => n.origin == origin,
        Move::EnPassante(e) => e.origin == origin && e.throwing.0 != e.destination,
        Move::Castling(c) => c.king_origin == origin && c.king_destination != c.rook_origin
            && c.king_destination != c.rook_destination,
        Move::Promotion(_) => false,
    }
}

/// Each of the moves is made from `origin`.
pub open spec fn all_made_from(ms: Seq<Move>, origin: Position) -> bool {
    forall|i: int| 0 <= i < ms.len() ==> made_from(#[trigger] ms[i], origin)
}

proof fn lemma_made_from_concat(a: Seq<Move>, c: Seq<Move>, origin: Position)
    requires
        all_made_from(a, origin),
        all_made_from(c, origin),
    ensures
        all_made_from(a + c, origin),
{
    assert forall|i: int| 0 <= i < (a + c).len() implies made_from(#[trigger] (a + c)[i], origin) by {
        if i >= a.len() {
            assert((a + c)[i] == c[i - a.len()]);
        }
    };
}

proof fn lemma_ray_on_board(b: Board, origin: Position, d: Direction, k: int, max: int, color: Color)
    ensures
        all_on_board(ray(b, origin, d, k, max, color)),
    decreases max + 1 - k,
{
    if 1 <= k <= max {
        lemma_ray_on_board(b, origin, d, k + 1, max, color);
        let rest = ray(b, origin, d, k + 1, max, color);
        match origin.shifted(d, k) {
            Some(p) => {
                assert forall|i: int| 0 <= i < (seq![p] + rest).len() implies (#[trigger] (seq![p]
                    + rest)[i]).wf() by {
                    if i > 0 {
                        assert((seq![p] + rest)[i] == rest[i - 1]);
                    }
                };
            },
            None => {},
        }
    }
}

proof fn lemma_slide_on_board(b: Board, origin: Position, dirs: Seq<Direction>, max: int, color: Color)
    ensures
        all_on_board(slide(b, origin, dirs, max, color)),
    decreases dirs.len(),
{
    if dirs.len() > 0 {
        lemma_slide_on_board(b, origin, dirs.drop_last(), max, color);
        lemma_ray_on_board(b, origin, dirs.last(), 1, max, color);
        let a = slide(b, origin, dirs.drop_last(), max, color);
        let c = ray(b, origin, dirs.last(), 1, max, color);
        assert forall|i: int| 0 <= i < (a + c).len() implies (#[trigger] (a + c)[i]).wf() by {
            if i >= a.len() {
                assert((a + c)[i] == c[i - a.len()]);
            }
        };
    }
}

proof fn lemma_knight_row_on_board(
    b: Board,
    origin: Position,
    d1: Direction,
    seconds: Seq<Direction>,
    color: Color,
)
    ensures
        all_on_board(knight_row(b, origin, d1, seconds, color)),
    decreases seconds.len(),
{
    if seconds.len() > 0 {
        lemma_knight_row_on_board(b, origin, d1, seconds.drop_last(), color);
    }
}

proof fn lemma_knight_jumps_on_board(b: Board, origin: Position, firsts: Seq<Direction>, color: Color)
    ensures
        all_on_board(knight_jumps(b, origin, firsts, color)),
    decreases firsts.len(),
{
    if firsts.len() > 0 {
        lemma_knight_jumps_on_board(b, origin, firsts.drop_last(), color);
        lemma_knight_row_on_board(b, origin, firsts.last(), non_diagonal_dirs(), color);
        let a = knight_jumps(b, origin, firsts.drop_last(), color);
        let c = knight_row(b, origin, firsts.last(), non_diagonal_dirs(), color);
        assert forall|i: int| 0 <= i < (a + c).len() implies (#[trigger] (a + c)[i]).wf() by {
            if i >= a.len() {
                assert((a + c)[i] == c[i - a.len()]);
            }
        };
    }
}

proof fn lemma_as_normal_made_from(b: Board, origin: Position, ps: Seq<Position>)
    requires
        origin.wf(),
        all_on_board(ps),
    ensures
        all_made_from(as_normal(b, origin, ps), origin),
{
}

proof fn lemma_pawn_made_from(b: Board, last: Option<Move>, origin: Position, pawn: Piece)
    requires
        origin.wf(),
    ensures
        all_made_from(pawn_moves(b, last, origin, pawn), origin),
{
    let s1 = pawn_steps(b, origin, pawn);
    let s2 = pawn_capture(b, origin, pawn.color, Direction::West);
    let s3 = pawn_capture(b, origin, pawn.color, Direction::East);
    let s4 = en_passant(b, last, origin, pawn.color, Direction::West);
    let s5 = en_passant(b, last, origin, pawn.color, Direction::East);
    assert(all_made_from(s1, origin));
    assert(all_made_from(s2, origin));
    assert(all_made_from(s3, origin));
    assert(all_made_from(s4, origin));
    assert(all_made_from(s5, origin));
    lemma_made_from_concat(s1, s2, origin);
    lemma_made_from_concat(s1 + s2, s3, origin);
    lemma_made_from_concat(s1 + s2 + s3, s4, origin);
    lemma_made_from_concat(s1 + s2 + s3 + s4, s5, origin);
}

proof fn lemma_castling_made_from(b: Board, origin: Position, king: Piece)
    requires
        origin.wf(),
    ensures
        all_made_from(castling_moves(b, origin, king), origin),
{
    if !king.has_moved && origin == home_of(king.color) {
        let l = listed(castle_left(b, origin.y));
        let r = listed(castle_right(b, origin.y));
        assert(all_made_from(l, origin));
        assert(all_made_from(r, origin));
        lemma_made_from_concat(l, r, origin);
    }
}

/// Every candidate move of the piece on `origin` is made from `origin`.
pub(crate) proof fn lemma_candidates_made_from(b: Board, last: Option<Move>, origin: Position)
    requires
        origin.wf(),
    ensures
        all_made_from(candidates(b, last, origin), origin),
{
    if at(b, origin) is Some {
        let pc = at(b, origin)->Some_0;
        match pc.piece_type {
            PieceType::King => {
                let ps = slide(b, origin, all_dirs(), 1, pc.color);
                lemma_slide_on_board(b, origin, all_dirs(), 1, pc.color);
                lemma_as_normal_made_from(b, origin, ps);
                lemma_castling_made_from(b, origin, pc);
                lemma_made_from_concat(as_normal(b, origin, ps), castling_moves(b, origin, pc), origin);
            },
            PieceType::Queen => {
                lemma_slide_on_board(b, origin, all_dirs(), 7, pc.color);
                lemma_as_normal_made_from(b, origin, slide(b, origin, all_dirs(), 7, pc.color));
            },
            PieceType::Rook => {
                lemma_slide_on_board(b, origin, non_diagonal_dirs(), 7, pc.color);
                lemma_as_normal_made_from(b, origin, slide(b, origin, non_diagonal_dirs(), 7, pc.color));
            },
            PieceType::Bishop => {
                lemma_slide_on_board(b, origin, diagonal_dirs(), 7, pc.color);
                lemma_as_normal_made_from(b, origin, slide(b, origin, diagonal_dirs(), 7, pc.color));
            },
            PieceType::Knight => {
                lemma_knight_jumps_on_board(b, origin, non_diagonal_dirs(), pc.color);
                lemma_as_normal_made_from(b, origin, knight_jumps(b, origin, non_diagonal_dirs(), pc.color));
            },
            PieceType::Pawn => {
                lemma_pawn_made_from(b, last, origin, pc);
            },
        }
    }
}

} // verus!
