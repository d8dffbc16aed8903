//! Which squares a side attacks: the predicate behind check detection and
//! behind the rule that a king may not castle out of, through or into check.

use vstd::prelude::*;
use crate::board::{Board, Position, piece_on};
use crate::piece::{Color, Piece, PieceType};

verus! {

/// `k` steps in direction `d`, where `d` is -1, 0 or 1.
pub open spec fn step(d: int, k: int) -> int {
    if d > 0 {
        k
    } else if d < 0 {
        -k
    } else {
        0
    }
}

/// Whether `(dr, df)` is one of the eight jumps of a knight.
pub open spec fn is_knight_jump(dr: int, df: int) -> bool {
    ((dr == 1 || dr == -1) && (df == 2 || df == -2)) || ((dr == 2 || dr == -2) && (df == 1 || df
        == -1))
}

/// Whether `(dr, df)` is one of the eight steps to an adjacent square.
pub open spec fn is_king_step(dr: int, df: int) -> bool {
    -1 <= dr <= 1 && -1 <= df <= 1 && (dr != 0 || df != 0)
}

/// Whether `(dr, df)` is one of the four steps along a rank or a file.
pub open spec fn is_straight(dr: int, df: int) -> bool {
    is_king_step(dr, df) && (dr == 0 || df == 0)
}

/// Whether `(dr, df)` is one of the four diagonal steps.
pub open spec fn is_diagonal(dr: int, df: int) -> bool {
    is_king_step(dr, df) && dr != 0 && df != 0
}

/// What stands `k` steps from `(r, f)` in direction `(dr, df)`; `None` off the
/// board.
pub open spec fn ray_piece(
    squares: Seq<Option<Piece>>,
    r: int,
    f: int,
    dr: int,
    df: int,
    k: int,
) -> Option<Piece> {
    piece_on(squares, r + step(dr, k), f + step(df, k))
}

/// Whether the squares strictly between `(r, f)` and the square `n` steps away
/// in direction `(dr, df)` are all empty.
pub open spec fn ray_clear(
    squares: Seq<Option<Piece>>,
    r: int,
    f: int,
    dr: int,
    df: int,
    n: int,
) -> bool {
    forall|k: int| 1 <= k < n ==> (#[trigger] ray_piece(squares, r, f, dr, df, k)) is None
}

/// Whether `p` is the first piece met from `(r, f)` in direction `(dr, df)`,
/// `n` steps away.
pub open spec fn sees(
    squares: Seq<Option<Piece>>,
    r: int,
    f: int,
    dr: int,
    df: int,
    n: int,
    p: Piece,
) -> bool {
    1 <= n && ray_clear(squares, r, f, dr, df, n) && ray_piece(squares, r, f, dr, df, n) == Some(p)
}

/// The kind of piece, besides the queen, that moves along straight lines
/// (`straight`) or along diagonals.
pub open spec fn slider_kind(straight: bool) -> PieceType {
    if straight {
        PieceType::Rook
    } else {
        PieceType::Bishop
    }
}

/// Whether the first piece met from `(r, f)` in direction `(dr, df)` stands `n`
/// steps away and is a queen of color `by`, or its rook (`straight`) or bishop.
pub open spec fn slider_at(
    squares: Seq<Option<Piece>>,
    r: int,
    f: int,
    dr: int,
    df: int,
    n: int,
    by: Color,
    straight: bool,
) -> bool {
    sees(squares, r, f, dr, df, n, Piece(by, PieceType::Queen)) || sees(
        squares,
        r,
        f,
        dr,
        df,
        n,
        Piece(by, slider_kind(straight)),
    )
}

/// Whether the first piece met from `(r, f)` in direction `(dr, df)` is a
/// queen of color `by`, or its rook (`straight`) or bishop.
pub open spec fn slider_along(
    squares: Seq<Option<Piece>>,
    r: int,
    f: int,
    dr: int,
    df: int,
    by: Color,
    straight: bool,
) -> bool {
    exists|n: int| #[trigger] slider_at(squares, r, f, dr, df, n, by, straight)
}

/// Whether `p` stands on the square `(dr, df)` away from `(r, f)`.
pub open spec fn piece_offset(
    squares: Seq<Option<Piece>>,
    r: int,
    f: int,
    dr: int,
    df: int,
    p: Piece,
) -> bool {
    piece_on(squares, r + dr, f + df) == Some(p)
}

/// Whether a pawn of color `by` attacks `(r, f)`: it stands one rank nearer to
/// its own side, on an adjacent file.
pub open spec fn attacked_by_pawn(squares: Seq<Option<Piece>>, r: int, f: int, by: Color) -> bool {
    let dr = if by == Color::White {
        -1int
    } else {
        1int
    };
    piece_offset(squares, r, f, dr, -1, Piece(by, PieceType::Pawn)) || piece_offset(
        squares,
        r,
        f,
        dr,
        1,
        Piece(by, PieceType::Pawn),
    )
}

/// Whether a knight of color `by` stands a knight's jump from `(r, f)`.
pub open spec fn attacked_by_knight(squares: Seq<Option<Piece>>, r: int, f: int, by: Color) -> bool {
    exists|dr: int, df: int|
        is_knight_jump(dr, df) && #[trigger] piece_offset(
            squares,
            r,
            f,
            dr,
            df,
            Piece(by, PieceType::Knight),
        )
}

/// Whether the king of color `by` stands next to `(r, f)`.
pub open spec fn attacked_by_king(squares: Seq<Option<Piece>>, r: int, f: int, by: Color) -> bool {
    exists|dr: int, df: int|
        is_king_step(dr, df) && #[trigger] piece_offset(
            squares,
            r,
            f,
            dr,
            df,
            Piece(by, PieceType::King),
        )
}

/// Whether a rook or queen of color `by` is the first piece met from `(r, f)`
/// along a rank or a file.
pub open spec fn attacked_by_rook_or_queen(
    squares: Seq<Option<Piece>>,
    r: int,
    f: int,
    by: Color,
) -> bool {
    exists|dr: int, df: int|
        is_straight(dr, df) && #[trigger] slider_along(squares, r, f, dr, df, by, true)
}

/// Whether a bishop or queen of color `by` is the first piece met from
/// `(r, f)` along a diagonal.
pub open spec fn attacked_by_bishop_or_queen(
    squares: Seq<Option<Piece>>,
    r: int,
    f: int,
    by: Color,
) -> bool {
    exists|dr: int, df: int|
        is_diagonal(dr, df) && #[trigger] slider_along(squares, r, f, dr, df, by, false)
}

/// Whether some piece of color `by` could capture on `(r, f)` with its next
/// move, whoever is to move and whether or not that move would be legal.
pub open spec fn attacked(squares: Seq<Option<Piece>>, r: int, f: int, by: Color) -> bool {
    ||| attacked_by_pawn(squares, r, f, by)
    ||| attacked_by_rook_or_queen(squares, r, f, by)
    ||| attacked_by_knight(squares, r, f, by)
    ||| attacked_by_bishop_or_queen(squares, r, f, by)
    ||| attacked_by_king(squares, r, f, by)
}

/// Whether the square with index `s` is attacked by color `by`.
pub open spec fn square_attacked(squares: Seq<Option<Piece>>, s: int, by: Color) -> bool {
    0 <= s < 64 && attacked(squares, s / 8, s % 8, by)
}

impl Board {
    /// Whether a piece of color `by` attacks square `sq`.
    pub fn is_attacked(&self, sq: u8, by: Color) -> (r: bool)
        requires
            sq < 64,
        ensures
            r == square_attacked(self@, sq as int, by),
    {
        self.is_position_in_check(&Position::from_square(sq), &by)
    }

    /// Whether a piece of color `opponent` attacks `position`. A position off
    /// the board is never attacked.
    pub fn is_position_in_check(&self, position: &Position, opponent: &Color) -> (r: bool)
        ensures
            r == (position.valid() && attacked(
                self@,
                position.0 as int,
                position.1 as int,
                *opponent,
            )),
    {
        position.is_valid() && (self.is_position_in_check_by_pawn(position, opponent)
            || self.is_position_in_check_by_rook_or_queen(position, opponent)
            || self.is_position_in_check_by_knight(position, opponent)
            || self.is_position_in_check_by_bishop_or_queen(position, opponent)
            || self.is_position_in_check_by_king(position, opponent))
    }

    /// Whether a pawn of color `opponent` attacks `position`.
    pub fn is_position_in_check_by_pawn(&self, position: &Position, opponent: &Color) -> (r: bool)
        requires
            position.valid(),
        ensures
            r == attacked_by_pawn(self@, position.0 as int, position.1 as int, *opponent),
    {
        let x = position.0;
        let y = position.1;
        let rank = match opponent {
            Color::White => x - 1,
            Color::Black => x + 1,
        };
        let pawn = Piece(*opponent, PieceType::Pawn);
        self.is_position_piece(&Position(rank, y - 1), &pawn) || self.is_position_piece(
            &Position(rank, y + 1),
            &pawn,
        )
    }

    /// Whether a knight of color `opponent` attacks `position`.
    pub fn is_position_in_check_by_knight(&self, position: &Position, opponent: &Color) -> (r:
        bool)
        requires
            position.valid(),
        ensures
            r == attacked_by_knight(self@, position.0 as int, position.1 as int, *opponent),
    {
        let x = position.0;
        let y = position.1;
        let knight = Piece(*opponent, PieceType::Knight);
        let r = self.is_position_piece(&Position(x + 1, y - 2), &knight) || self.is_position_piece(
            &Position(x + 2, y - 1),
            &knight,
        ) || self.is_position_piece(&Position(x + 2, y + 1), &knight) || self.is_position_piece(
            &Position(x + 1, y + 2),
            &knight,
        ) || self.is_position_piece(&Position(x - 1, y + 2), &knight) || self.is_position_piece(
            &Position(x - 2, y + 1),
            &knight,
        ) || self.is_position_piece(&Position(x - 2, y - 1), &knight) || self.is_position_piece(
            &Position(x - 1, y - 2),
            &knight,
        );
        proof {
            let sq = self@;
            let (a, b) = (x as int, y as int);
            if r {
                assert(piece_offset(sq, a, b, 1, -2, knight) || piece_offset(sq, a, b, 2, -1, knight)
                    || piece_offset(sq, a, b, 2, 1, knight) || piece_offset(sq, a, b, 1, 2, knight)
                    || piece_offset(sq, a, b, -1, 2, knight) || piece_offset(
                    sq,
                    a,
                    b,
                    -2,
                    1,
                    knight,
                ) || piece_offset(sq, a, b, -2, -1, knight) || piece_offset(
                    sq,
                    a,
                    b,
                    -1,
                    -2,
                    knight,
                ));
            }
        }
        r
    }

    /// Whether the king of color `opponent` attacks `position`.
    pub fn is_position_in_check_by_king(&self, position: &Position, opponent: &Color) -> (r: bool)
        requires
            position.valid(),
        ensures
            r == attacked_by_king(self@, position.0 as int, position.1 as int, *opponent),
    {
        let x = position.0;
        let y = position.1;
        let king = Piece(*opponent, PieceType::King);
        let r = self.is_position_piece(&Position(x - 1, y - 1), &king) || self.is_position_piece(
            &Position(x - 1, y),
            &king,
        ) || self.is_position_piece(&Position(x - 1, y + 1), &king) || self.is_position_piece(
            &Position(x + 1, y - 1),
            &king,
        ) || self.is_position_piece(&Position(x + 1, y), &king) || self.is_position_piece(
            &Position(x + 1, y + 1),
            &king,
        ) || self.is_position_piece(&Position(x, y - 1), &king) || self.is_position_piece(
            &Position(x, y + 1),
            &king,
        );
        proof {
            let sq = self@;
            let (a, b) = (x as int, y as int);
            if r {
                assert(piece_offset(sq, a, b, -1, -1, king) || piece_offset(sq, a, b, -1, 0, king)
                    || piece_offset(sq, a, b, -1, 1, king) || piece_offset(sq, a, b, 1, -1, king)
                    || piece_offset(sq, a, b, 1, 0, king) || piece_offset(sq, a, b, 1, 1, king)
                    || piece_offset(sq, a, b, 0, -1, king) || piece_offset(sq, a, b, 0, 1, king));
            }
        }
        r
    }

    /// Whether the first piece met from `position` in direction `(dr, df)` is
    /// a queen of color `opponent`, or its rook (`straight`) or bishop.
    pub fn is_position_in_check_along(
        &self,
        position: &Position,
        dr: i8,
        df: i8,
        opponent: &Color,
        straight: bool,
    ) -> (r: bool)
        requires
            position.valid(),
            is_king_step(dr as int, df as int),
        ensures
            r == slider_along(
                self@,
                position.0 as int,
                position.1 as int,
                dr as int,
                df as int,
                *opponent,
                straight,
            ),
    {
        let x = position.0;
        let y = position.1;
        let ghost sq = self@;
        let ghost (a, b, da, db) = (x as int, y as int, dr as int, df as int);
        let mut i: i8 = 1;
        let mut cr: i8 = x + dr;
        let mut cf: i8 = y + df;
        while i < 8
            invariant
                1 <= i <= 8,
                0 <= x < 8,
                0 <= y < 8,
                sq == self@,
                x == position.0,
                y == position.1,
                a == x,
                b == y,
                da == dr,
                db == df,
                is_king_step(da, db),
                cr == a + step(da, i as int),
                cf == b + step(db, i as int),
                ray_clear(sq, a, b, da, db, i as int),
            decreases 8 - i,
        {
            let here = Position(cr, cf);
            if !here.is_valid() {
                proof {
                    assert forall|n: int| !#[trigger] slider_at(
                        sq,
                        a,
                        b,
                        da,
                        db,
                        n,
                        *opponent,
                        straight,
                    ) by {
                        if n >= i {
                            assert(ray_piece(sq, a, b, da, db, n) is None);
                        } else if n >= 1 {
                            assert(ray_piece(sq, a, b, da, db, n) is None);
                        }
                    }
                }
                return false;
            }
            match self.get_piece(&here) {
                None => {},
                Some(p) => {
                    let hit = p.0 == *opponent && (p.1 == PieceType::Queen || (straight && p.1
                        == PieceType::Rook) || (!straight && p.1 == PieceType::Bishop));
                    proof {
                        assert(ray_piece(sq, a, b, da, db, i as int) == Some(*p));
                        if hit {
                            assert(slider_at(sq, a, b, da, db, i as int, *opponent, straight));
                        } else {
                            assert forall|n: int| !#[trigger] slider_at(
                                sq,
                                a,
                                b,
                                da,
                                db,
                                n,
                                *opponent,
                                straight,
                            ) by {
                                if n > i {
                                    assert(!ray_clear(sq, a, b, da, db, n));
                                } else if 1 <= n < i {
                                    assert(ray_piece(sq, a, b, da, db, n) is None);
                                }
                            }
                        }
                    }
                    return hit;
                },
            }
            i = i + 1;
            cr = cr + dr;
            cf = cf + df;
        }
        proof {
            assert forall|n: int| !#[trigger] slider_at(sq, a, b, da, db, n, *opponent, straight) by {
                if n >= 8 {
                    assert(ray_piece(sq, a, b, da, db, n) is None);
                } else if n >= 1 {
                    assert(ray_piece(sq, a, b, da, db, n) is None);
                }
            }
        }
        false
    }

    /// Whether a rook or queen of color `opponent` attacks `position`.
    pub fn is_position_in_check_by_rook_or_queen(
        &self,
        position: &Position,
        opponent: &Color,
    ) -> (r: bool)
        requires
            position.valid(),
        ensures
            r == attacked_by_rook_or_queen(self@, position.0 as int, position.1 as int, *opponent),
    {
        let r = self.is_position_in_check_along(position, 1, 0, opponent, true)
            || self.is_position_in_check_along(position, -1, 0, opponent, true)
            || self.is_position_in_check_along(position, 0, 1, opponent, true)
            || self.is_position_in_check_along(position, 0, -1, opponent, true);
        proof {
            let sq = self@;
            let (a, b) = (position.0 as int, position.1 as int);
            if r {
                assert(slider_along(sq, a, b, 1, 0, *opponent, true) || slider_along(
                    sq,
                    a,
                    b,
                    -1,
                    0,
                    *opponent,
                    true,
                ) || slider_along(sq, a, b, 0, 1, *opponent, true) || slider_along(
                    sq,
                    a,
                    b,
                    0,
                    -1,
                    *opponent,
                    true,
                ));
            }
        }
        r
    }

    /// Whether a bishop or queen of color `opponent` attacks `position`.
    pub fn is_position_in_check_by_bishop_or_queen(
        &self,
        position: &Position,
        opponent: &Color,
    ) -> (r: bool)
        requires
            position.valid(),
        ensures
            r == attacked_by_bishop_or_queen(
                self@,
                position.0 as int,
                position.1 as int,
                *opponent,
            ),
    {
        let r = self.is_position_in_check_along(position, 1, 1, opponent, false)
            || self.is_position_in_check_along(position, 1, -1, opponent, false)
            || self.is_position_in_check_along(position, -1, 1, opponent, false)
            || self.is_position_in_check_along(position, -1, -1, opponent, false);
        proof {
            let sq = self@;
            let (a, b) = (position.0 as int, position.1 as int);
            if r {
                assert(slider_along(sq, a, b, 1, 1, *opponent, false) || slider_along(
                    sq,
                    a,
                    b,
                    1,
                    -1,
                    *opponent,
                    false,
                ) || slider_along(sq, a, b, -1, 1, *opponent, false) || slider_along(
                    sq,
                    a,
                    b,
                    -1,
                    -1,
                    *opponent,
                    false,
                ));
            }
        }
        r
    }
}

} // verus!
