use vstd::prelude::*;

use crate::coordinates::{all_dirs, diagonal_dirs, non_diagonal_dirs, Direction, Position};
use crate::moves::{
    first_answer, lemma_first_answer_is_listed, lemma_legal_moves_keep_king_safe,
    lemma_legal_moves_made_from, legal_moves, made_from, valid_destinations, Move, MoveRequest,
};
use crate::pieces::{Color, Piece, PieceType};

verus! {

/// A board: 64 squares in rank-major order, each empty or holding a piece.
pub type Board = Seq<Option<Piece>>;

/// The piece on a square of a board.
pub open spec fn at(b: Board, p: Position) -> Option<Piece> {
    b[p.index()]
}

/// The square held in slot `i` of a board.
pub open spec fn square_of(i: int) -> Position {
    Position { x: (i % 8) as u8, y: (i / 8) as u8 }
}

/// The same piece, marked as having moved.
pub open spec fn marked_moved(p: Piece) -> Piece {
    Piece { has_moved: true, ..p }
}

/// The piece kinds of the back rank, from file A to file H.
pub open spec fn back_rank(x: int) -> PieceType {
    if x == 0 || x == 7 {
        PieceType::Rook
    } else if x == 1 || x == 6 {
        PieceType::Knight
    } else if x == 2 || x == 5 {
        PieceType::Bishop
    } else if x == 3 {
        PieceType::Queen
    } else {
        PieceType::King
    }
}

/// What slot `i` holds in the standard starting layout.
pub open spec fn initial_square(i: int) -> Option<Piece> {
    let x = i % 8;
    let y = i / 8;
    if y == 0 {
        Some(Piece { piece_type: back_rank(x), color: Color::White, has_moved: false })
    } else if y == 1 {
        Some(Piece { piece_type: PieceType::Pawn, color: Color::White, has_moved: false })
    } else if y == 6 {
        Some(Piece { piece_type: PieceType::Pawn, color: Color::Black, has_moved: false })
    } else if y == 7 {
        Some(Piece { piece_type: back_rank(x), color: Color::Black, has_moved: false })
    } else {
        None
    }
}

/// The standard starting layout of 32 pieces.
pub open spec fn initial_board() -> Board {
    Seq::new(64, |i: int| initial_square(i))
}

/// Why a move could not be applied.
#[derive(Debug, Clone, Copy, PartialEq, Eq, Structural)]
pub enum MoveError {
    /// A square the move takes a piece from is empty.
    MissingPiece,
    /// Promotion moves cannot be applied yet.
    PromotionUnsupported,
}

/// The board after a move, or why the move cannot be applied to `b`.
pub open spec fn next_board(b: Board, m: Move) -> Result<Board, MoveError> {
    match m {
        Move::NormalMove(n) => match at(b, n.origin) {
            None => Err(MoveError::MissingPiece),
            Some(pc) => Ok(
                b.update(n.origin.index(), None).update(
                    n.destination.index(),
                    Some(marked_moved(pc)),
                ),
            ),
        },
        Move::EnPassante(e) => match at(b, e.origin) {
            None => Err(MoveError::MissingPiece),
            Some(pc) => Ok(
                b.update(e.origin.index(), None).update(e.destination.index(), Some(pc)).update(
                    e.throwing.0.index(),
                    None,
                ),
            ),
        },
        Move::Castling(c) => match at(b, c.king_origin) {
            None => Err(MoveError::MissingPiece),
            Some(k) => {
                let b1 = b.update(c.king_origin.index(), None).update(
                    c.king_destination.index(),
                    Some(marked_moved(k)),
                );
                match at(b1, c.rook_origin) {
                    None => Err(MoveError::MissingPiece),
                    Some(r) => Ok(
                        b1.update(c.rook_origin.index(), None).update(
                            c.rook_destination.index(),
                            Some(marked_moved(r)),
                        ),
                    ),
                }
            },
        },
        Move::Promotion(_) => Err(MoveError::PromotionUnsupported),
    }
}

/// The side to move: White before any move, otherwise the opponent of the
/// piece standing where the last move ended (White if that square is empty).
pub open spec fn side_to_move(b: Board, last: Option<Move>) -> Color {
    match last {
        None => Color::White,
        Some(m) => match at(b, m.target()) {
            Some(pc) => pc.color.opponent(),
            None => Color::White,
        },
    }
}

/// The first square, in slot order from slot `i` on, that holds a king of
/// `color`.
pub open spec fn king_from(b: Board, color: Color, i: int) -> Option<Position>
    decreases 64 - i,
{
    if i < 0 || i >= 64 {
        None
    } else if b[i] is Some && b[i]->Some_0.piece_type == PieceType::King && b[i]->Some_0.color
        == color {
        Some(square_of(i))
    } else {
        king_from(b, color, i + 1)
    }
}

/// Scanning from step `k` on along `d` from `from`, the first piece met is
/// an enemy of kind `kind` or an enemy queen.
pub open spec fn ray_attack(
    b: Board,
    from: Position,
    d: Direction,
    k: int,
    enemy: Color,
    kind: PieceType,
) -> bool
    decreases 8 - k,
{
    if k < 1 || k > 7 {
        false
    } else {
        match from.shifted(d, k) {
            None => ray_attack(b, from, d, k + 1, enemy, kind),
            Some(p) => match at(b, p) {
                None => ray_attack(b, from, d, k + 1, enemy, kind),
                Some(pc) => pc.color == enemy && (pc.piece_type == kind || pc.piece_type
                    == PieceType::Queen),
            },
        }
    }
}

/// `p` is a square that holds a piece of kind `kind` and side `color`.
pub open spec fn holds(b: Board, p: Option<Position>, kind: PieceType, color: Color) -> bool {
    match p {
        Some(q) => match at(b, q) {
            Some(pc) => pc.piece_type == kind && pc.color == color,
            None => false,
        },
        None => false,
    }
}

/// `n1` steps along `d1`, then `n2` steps along `d2`, staying on the board.
pub open spec fn hop(from: Position, d1: Direction, n1: int, d2: Direction, n2: int) -> Option<
    Position,
> {
    match from.shifted(d1, n1) {
        Some(q) => q.shifted(d2, n2),
        None => None,
    }
}

/// The direction in which pawns of `color` advance.
pub open spec fn forward(color: Color) -> Direction {
    match color {
        Color::White => Direction::North,
        Color::Black => Direction::South,
    }
}

/// A king of `color` standing on `k` is attacked: along a diagonal by a
/// bishop or queen, along a rank or file by a rook or queen, or by a
/// knight, pawn or king of the other side.
pub open spec fn attacked_at(b: Board, k: Position, color: Color) -> bool {
    let enemy = color.opponent();
    let nd = non_diagonal_dirs();
    ||| exists|i: int| 0 <= i < 4 && #[trigger] ray_attack(b, k, diagonal_dirs()[i], 1, enemy, PieceType::Bishop)
    ||| exists|i: int| 0 <= i < 4 && #[trigger] ray_attack(b, k, nd[i], 1, enemy, PieceType::Rook)
    ||| exists|i: int, j: int|
        0 <= i < 4 && 0 <= j < 4 && !nd[i].same_axis(nd[j]) && #[trigger] holds(
            b,
            hop(k, nd[i], 2, nd[j], 1),
            PieceType::Knight,
            enemy,
        )
    ||| holds(b, hop(k, forward(color), 1, Direction::West, 1), PieceType::Pawn, enemy)
    ||| holds(b, hop(k, forward(color), 1, Direction::East, 1), PieceType::Pawn, enemy)
    ||| exists|i: int| 0 <= i < 8 && #[trigger] holds(b, k.shifted(all_dirs()[i], 1), PieceType::King, enemy)
}

/// The king of `color` (the first one in slot order) is attacked; a side
/// without a king is never in check.
pub open spec fn king_attacked(b: Board, color: Color) -> bool {
    match king_from(b, color, 0) {
        Some(k) => attacked_at(b, k, color),
        None => false,
    }
}

/// The square `origin` holds a piece of the side to move.
pub open spec fn owns(b: Board, last: Option<Move>, origin: Position) -> bool {
    origin.wf() && at(b, origin) is Some && at(b, origin)->Some_0.color == side_to_move(b, last)
}

/// The move a request stands for: the first legal move of a piece of the
/// side to move that answers it.
pub open spec fn requested_move(b: Board, last: Option<Move>, req: MoveRequest) -> Option<Move> {
    if owns(b, last, req.origin) {
        first_answer(legal_moves(b, last, req.origin), req)
    } else {
        None
    }
}

/// Some piece of `color` has a legal move.
pub open spec fn can_move(b: Board, last: Option<Move>, color: Color) -> bool {
    exists|i: int|
        0 <= i < 64 && at(b, square_of(i)) is Some && at(b, square_of(i))->Some_0.color == color
            && #[trigger] legal_moves(b, last, square_of(i)).len() > 0
}

/// A request that stands for a move is carried out without leaving the
/// mover's own king in check.
pub proof fn lemma_request_keeps_king_safe(g: Game, req: MoveRequest)
    requires
        g.wf(),
        requested_move(g.squares(), g.previous(), req) is Some,
    ensures
        next_board(g.squares(), requested_move(g.squares(), g.previous(), req)->Some_0) is Ok,
        !king_attacked(
            next_board(g.squares(), requested_move(g.squares(), g.previous(), req)->Some_0)->Ok_0,
            g.turn(),
        ),
{
    let b = g.squares();
    let ms = legal_moves(b, g.previous(), req.origin);
    lemma_first_answer_is_listed(ms, req);
    let k = choose|k: int| 0 <= k < ms.len() && ms[k] == first_answer(ms, req)->Some_0;
    lemma_legal_moves_keep_king_safe(b, g.previous(), req.origin, k);
}

/// After a request is carried out the other side is to move: the side to
/// move alternates with every accepted move.
pub proof fn lemma_request_passes_the_turn(g: Game, req: MoveRequest)
    requires
        g.wf(),
        requested_move(g.squares(), g.previous(), req) is Some,
    ensures
        next_board(g.squares(), requested_move(g.squares(), g.previous(), req)->Some_0) is Ok,
        side_to_move(
            next_board(g.squares(), requested_move(g.squares(), g.previous(), req)->Some_0)->Ok_0,
            requested_move(g.squares(), g.previous(), req),
        ) == g.turn().opponent(),
{
    let b = g.squares();
    let last = g.previous();
    let ms = legal_moves(b, last, req.origin);
    lemma_first_answer_is_listed(ms, req);
    let k = choose|k: int| 0 <= k < ms.len() && ms[k] == first_answer(ms, req)->Some_0;
    lemma_legal_moves_keep_king_safe(b, last, req.origin, k);
    lemma_legal_moves_made_from(b, last, req.origin, k);
    let m = ms[k];
    assert(made_from(m, req.origin));
    let b2 = next_board(b, m)->Ok_0;
    match m {
        Move::NormalMove(n) => {
            assert(at(b2, n.destination) == Some(marked_moved(at(b, n.origin)->Some_0)));
        },
        Move::EnPassante(e) => {
            assert(e.throwing.0.index() != e.destination.index());
            assert(at(b2, e.destination) == at(b, e.origin));
        },
        Move::Castling(c) => {
            assert(c.king_destination.index() != c.rook_origin.index());
            assert(c.king_destination.index() != c.rook_destination.index());
            assert(at(b2, c.king_destination) == Some(marked_moved(at(b, c.king_origin)->Some_0)));
        },
        Move::Promotion(_) => {},
    }
}

/// Slot of a square on the board.
fn slot(p: Position) -> (r: usize)
    requires
        p.wf(),
    ensures
        r as int == p.index(),
        r < 64,
{
    p.y as usize * 8 + p.x as usize
}

/// An immutable snapshot of a game: where the pieces stand, and the move
/// that led here.
#[derive(Debug, Clone, Copy)]
pub struct Game {
    board: [Option<Piece>; 64],
    pub last_move: Option<Move>,
}

impl Game {
    /// The squares of this snapshot.
    pub closed spec fn squares(self) -> Board {
        self.board@
    }

    /// The move that led to this snapshot.
    pub closed spec fn previous(self) -> Option<Move> {
        self.last_move
    }

    /// The board has its 64 squares, and the last move names squares of
    /// the board only.
    pub open spec fn wf(self) -> bool {
        &&& self.squares().len() == 64
        &&& match self.previous() {
            Some(m) => m.wf(),
            None => true,
        }
    }

    /// The side to move in this snapshot.
    pub open spec fn turn(self) -> Color {
        side_to_move(self.squares(), self.previous())
    }

    /// The standard starting position, before any move.
    pub fn new() -> (r: Game)
        ensures
            r.squares() == initial_board(),
            r.previous() is None,
            r.wf(),
    {
        let mut board: [Option<Piece>; 64] = [None; 64];
        let mut i: usize = 0;
        while i < 64
            invariant
                0 <= i <= 64,
                board@.len() == 64,
                forall|j: int| 0 <= j < i ==> board@[j] == initial_square(j),
            decreases 64 - i,
        {
            board[i] = initial_piece(i);
            i = i + 1;
        }
        assert(board@ =~= initial_board());
        Game { board, last_move: None }
    }

    /// The move that led to this snapshot.
    pub fn previous_move(&self) -> (r: Option<Move>)
        ensures
            r == self.previous(),
    {
        self.last_move
    }

    /// The piece on a square; `None` for an empty square or one off the
    /// board.
    pub fn piece_at(&self, pos: Position) -> (r: Option<Piece>)
        ensures
            r == (if pos.wf() { at(self.squares(), pos) } else { None }),
    {
        if pos.x <= 7 && pos.y <= 7 {
            self.board[slot(pos)]
        } else {
            None
        }
    }

    /// The side to move: White before any move, otherwise the opponent of
    /// the piece on the square where the last move ended.
    pub fn active_color(&self) -> (r: Color)
        requires
            self.wf(),
        ensures
            r == self.turn(),
    {
        match self.last_move {
            None => Color::White,
            Some(m) => match self.piece_at(m.destination()) {
                Some(pc) => pc.color.other(),
                None => Color::White,
            },
        }
    }

    /// Applies a move to a copy of this snapshot. Fails when a square it
    /// takes a piece from is empty, or for a promotion, which is not
    /// supported.
    pub fn perform_move(&self, mov: Move) -> (r: Result<Game, MoveError>)
        requires
            mov.wf(),
        ensures
            r is Ok <==> next_board(self.squares(), mov) is Ok,
            r is Ok ==> r->Ok_0.squares() == next_board(self.squares(), mov)->Ok_0
                && r->Ok_0.previous() == Some(mov) && r->Ok_0.wf(),
            self.squares().len() == 64,
            r is Err ==> r->Err_0 == next_board(self.squares(), mov)->Err_0,
    {
        let mut board = self.board;
        match mov {
            Move::NormalMove(n) => {
                let o = slot(n.origin);
                match board[o] {
                    None => Err(MoveError::MissingPiece),
                    Some(pc) => {
                        board[o] = None;
                        board[slot(n.destination)] = Some(Piece { has_moved: true, ..pc });
                        Ok(Game { board, last_move: Some(mov) })
                    },
                }
            },
            Move::EnPassante(e) => {
                let o = slot(e.origin);
                match board[o] {
                    None => Err(MoveError::MissingPiece),
                    Some(pc) => {
                        board[o] = None;
                        board[slot(e.destination)] = Some(pc);
                        board[slot(e.throwing.0)] = None;
                        Ok(Game { board, last_move: Some(mov) })
                    },
                }
            },
            Move::Castling(c) => {
                let ko = slot(c.king_origin);
                match board[ko] {
                    None => Err(MoveError::MissingPiece),
                    Some(k) => {
                        board[ko] = None;
                        board[slot(c.king_destination)] = Some(Piece { has_moved: true, ..k });
                        let ro = slot(c.rook_origin);
                        match board[ro] {
                            None => Err(MoveError::MissingPiece),
                            Some(rook) => {
                                board[ro] = None;
                                board[slot(c.rook_destination)] = Some(
                                    Piece { has_moved: true, ..rook },
                                );
                                Ok(Game { board, last_move: Some(mov) })
                            },
                        }
                    },
                }
            },
            Move::Promotion(_) => Err(MoveError::PromotionUnsupported),
        }
    }
    /// Carries out a request: `None` when the origin holds no piece of the
    /// side to move, or when no legal move of that piece answers it.
    pub fn perform_move_request(&self, move_req: MoveRequest) -> (r: Option<Game>)
        requires
            self.wf(),
        ensures
            r is Some <==> requested_move(self.squares(), self.previous(), move_req) is Some
                && next_board(
                self.squares(),
                requested_move(self.squares(), self.previous(), move_req)->Some_0,
            ) is Ok,
            r is Some ==> r->Some_0.squares() == next_board(
                self.squares(),
                requested_move(self.squares(), self.previous(), move_req)->Some_0,
            )->Ok_0 && r->Some_0.previous() == requested_move(
                self.squares(),
                self.previous(),
                move_req,
            ) && r->Some_0.wf(),
    {
        let owned = match self.piece_at(move_req.origin) {
            Some(piece) => piece.color == self.active_color(),
            None => false,
        };
        if !owned {
            return None;
        }
        match move_req.to_move(self) {
            Some(mov) => match self.perform_move(mov) {
                Ok(game) => Some(game),
                Err(_) => None,
            },
            None => None,
        }
    }

    /// The opponent of the side to move when that side has no legal move
    /// at all (checkmate, and also stalemate); otherwise `None`.
    pub fn winner(&self) -> (r: Option<Color>)
        requires
            self.wf(),
        ensures
            r == (if can_move(self.squares(), self.previous(), self.turn()) {
                None
            } else {
                Some(self.turn().opponent())
            }),
    {
        let active = self.active_color();
        let mut i: usize = 0;
        while i < 64
            invariant
                0 <= i <= 64,
                self.wf(),
                active == self.turn(),
                forall|j: int|
                    0 <= j < i && at(self.squares(), square_of(j)) is Some && at(
                        self.squares(),
                        square_of(j),
                    )->Some_0.color == active ==> #[trigger] legal_moves(
                        self.squares(),
                        self.previous(),
                        square_of(j),
                    ).len() == 0,
            decreases 64 - i,
        {
            let pos = Position { x: (i % 8) as u8, y: (i / 8) as u8 };
            assert(pos == square_of(i as int));
            match self.piece_at(pos) {
                Some(piece) => {
                    if piece.color == active && valid_destinations(pos, self).len() > 0 {
                        return None;
                    }
                },
                None => {},
            }
            i = i + 1;
        }
        Some(active.other())
    }

    /// The king of `color` is attacked by a piece of the other side.
    pub fn is_king_in_check(&self, color: Color) -> (r: bool)
        requires
            self.wf(),
        ensures
            r == king_attacked(self.squares(), color),
    {
        let king_pos = match self.find_king(color) {
            Some(p) => p,
            None => return false,
        };
        let enemy = color.other();
        let diagonal = Direction::all_diagonal();
        let straight = Direction::all_non_diagonal();
        let diag_attack = self.any_ray_attack(king_pos, &diagonal, enemy, PieceType::Bishop);
        let straight_attack = self.any_ray_attack(king_pos, &straight, enemy, PieceType::Rook);
        let knight_attack = self.knight_attack(king_pos, enemy);
        let pawn_dir = match color {
            Color::White => Direction::North,
            Color::Black => Direction::South,
        };
        let ahead = king_pos.moved(pawn_dir, 1);
        let west = match ahead {
            Some(p) => p.moved(Direction::West, 1),
            None => None,
        };
        let east = match ahead {
            Some(p) => p.moved(Direction::East, 1),
            None => None,
        };
        let pawn_attack = self.holds_piece(west, PieceType::Pawn, enemy) || self.holds_piece(
            east,
            PieceType::Pawn,
            enemy,
        );
        let king_attack = self.king_attack(king_pos, enemy);
        diag_attack || straight_attack || knight_attack || pawn_attack || king_attack
    }

    /// The first square in slot order holding a king of `color`.
    fn find_king(&self, color: Color) -> (r: Option<Position>)
        requires
            self.wf(),
        ensures
            r == king_from(self.squares(), color, 0),
            r is Some ==> r->Some_0.wf(),
    {
        let mut i: usize = 0;
        while i < 64
            invariant
                0 <= i <= 64,
                self.wf(),
                king_from(self.squares(), color, 0) == king_from(self.squares(), color, i as int),
            decreases 64 - i,
        {
            match self.board[i] {
                Some(pc) => {
                    if pc.piece_type == PieceType::King && pc.color == color {
                        return Some(Position { x: (i % 8) as u8, y: (i / 8) as u8 });
                    }
                },
                None => {},
            }
            i = i + 1;
        }
        None
    }

    /// The first piece met from `from` along `dir` is an enemy of kind
    /// `kind` or an enemy queen.
    fn ray_attack(&self, from: Position, dir: Direction, enemy: Color, kind: PieceType) -> (r: bool)
        requires
            self.wf(),
        ensures
            r == ray_attack(self.squares(), from, dir, 1, enemy, kind),
    {
        let mut k: i8 = 1;
        while k <= 7
            invariant
                1 <= k <= 8,
                self.wf(),
                ray_attack(self.squares(), from, dir, 1, enemy, kind) == ray_attack(
                    self.squares(),
                    from,
                    dir,
                    k as int,
                    enemy,
                    kind,
                ),
            decreases 8 - k,
        {
            match from.moved(dir, k) {
                Some(p) => match self.piece_at(p) {
                    Some(pc) => {
                        return pc.color == enemy && (pc.piece_type == kind || pc.piece_type
                            == PieceType::Queen);
                    },
                    None => {},
                },
                None => {},
            }
            k = k + 1;
        }
        false
    }

    /// Some direction of `dirs` has a ray attack on `from`.
    fn any_ray_attack(&self, from: Position, dirs: &Vec<Direction>, enemy: Color, kind: PieceType) -> (r: bool)
        requires
            self.wf(),
        ensures
            r == exists|i: int|
                0 <= i < dirs@.len() && #[trigger] ray_attack(self.squares(), from, dirs@[i], 1, enemy, kind),
    {
        let mut i: usize = 0;
        while i < dirs.len()
            invariant
                0 <= i <= dirs@.len(),
                self.wf(),
                forall|j: int| 0 <= j < i ==> !#[trigger] ray_attack(self.squares(), from, dirs@[j], 1, enemy, kind),
            decreases dirs@.len() - i,
        {
            if self.ray_attack(from, dirs[i], enemy, kind) {
                return true;
            }
            i = i + 1;
        }
        false
    }

    /// `p` is a square that holds a piece of kind `kind` and side `color`.
    fn holds_piece(&self, p: Option<Position>, kind: PieceType, color: Color) -> (r: bool)
        requires
            self.wf(),
            p is Some ==> p->Some_0.wf(),
        ensures
            r == holds(self.squares(), p, kind, color),
    {
        match p {
            Some(q) => match self.piece_at(q) {
                Some(pc) => pc.piece_type == kind && pc.color == color,
                None => false,
            },
            None => false,
        }
    }

    /// An enemy knight stands a knight's jump away from `from`.
    fn knight_attack(&self, from: Position, enemy: Color) -> (r: bool)
        requires
            self.wf(),
            from.wf(),
        ensures
            r == exists|i: int, j: int|
                0 <= i < 4 && 0 <= j < 4 && !non_diagonal_dirs()[i].same_axis(non_diagonal_dirs()[j])
                    && #[trigger] holds(
                    self.squares(),
                    hop(from, non_diagonal_dirs()[i], 2, non_diagonal_dirs()[j], 1),
                    PieceType::Knight,
                    enemy,
                ),
    {
        let dirs = Direction::all_non_diagonal();
        let ghost nd = non_diagonal_dirs();
        let mut i: usize = 0;
        while i < 4
            invariant
                0 <= i <= 4,
                self.wf(),
                dirs@ == nd,
                nd == non_diagonal_dirs(),
                forall|a: int, c: int|
                    0 <= a < i && 0 <= c < 4 && !nd[a].same_axis(nd[c]) ==> !#[trigger] holds(
                        self.squares(),
                        hop(from, nd[a], 2, nd[c], 1),
                        PieceType::Knight,
                        enemy,
                    ),
            decreases 4 - i,
        {
            let mut j: usize = 0;
            while j < 4
                invariant
                    0 <= i < 4,
                    0 <= j <= 4,
                    self.wf(),
                    dirs@ == nd,
                    nd == non_diagonal_dirs(),
                    forall|a: int, c: int|
                        0 <= a < i && 0 <= c < 4 && !nd[a].same_axis(nd[c]) ==> !#[trigger] holds(
                            self.squares(),
                            hop(from, nd[a], 2, nd[c], 1),
                            PieceType::Knight,
                            enemy,
                        ),
                    forall|c: int|
                        0 <= c < j && !nd[i as int].same_axis(nd[c]) ==> !#[trigger] holds(
                            self.squares(),
                            hop(from, nd[i as int], 2, nd[c], 1),
                            PieceType::Knight,
                            enemy,
                        ),
                decreases 4 - j,
            {
                if !dirs[i].is_same_axis(&dirs[j]) {
                    let target = match from.moved(dirs[i], 2) {
                        Some(p) => p.moved(dirs[j], 1),
                        None => None,
                    };
                    if self.holds_piece(target, PieceType::Knight, enemy) {
                        assert(target == hop(from, nd[i as int], 2, nd[j as int], 1));
                        return true;
                    }
                }
                j = j + 1;
            }
            i = i + 1;
        }
        false
    }

    /// An enemy king stands next to `from`.
    fn king_attack(&self, from: Position, enemy: Color) -> (r: bool)
        requires
            self.wf(),
        ensures
            r == exists|i: int|
                0 <= i < 8 && #[trigger] holds(self.squares(), from.shifted(all_dirs()[i], 1), PieceType::King, enemy),
    {
        let dirs = Direction::all();
        let mut i: usize = 0;
        while i < 8
            invariant
                0 <= i <= 8,
                self.wf(),
                dirs@ == all_dirs(),
                forall|j: int|
                    0 <= j < i ==> !#[trigger] holds(self.squares(), from.shifted(all_dirs()[j], 1), PieceType::King, enemy),
            decreases 8 - i,
        {
            if self.holds_piece(from.moved(dirs[i], 1), PieceType::King, enemy) {
                return true;
            }
            i = i + 1;
        }
        false
    }
}

/// The piece kind on file `x` of a back rank.
fn back_rank_piece(x: usize) -> (r: PieceType)
    requires
        x < 8,
    ensures
        r == back_rank(x as int),
{
    if x == 0 || x == 7 {
        PieceType::Rook
    } else if x == 1 || x == 6 {
        PieceType::Knight
    } else if x == 2 || x == 5 {
        PieceType::Bishop
    } else if x == 3 {
        PieceType::Queen
    } else {
        PieceType::King
    }
}

/// What slot `i` holds at the start of a game.
fn initial_piece(i: usize) -> (r: Option<Piece>)
    requires
        i < 64,
    ensures
        r == initial_square(i as int),
{
    let x = i % 8;
    let y = i / 8;
    if y == 0 {
        Some(Piece::new(back_rank_piece(x), Color::White))
    } else if y == 1 {
        Some(Piece::new(PieceType::Pawn, Color::White))
    } else if y == 6 {
        Some(Piece::new(PieceType::Pawn, Color::Black))
    } else if y == 7 {
        Some(Piece::new(back_rank_piece(x), Color::Black))
    } else {
        None
    }
}

} // verus!
