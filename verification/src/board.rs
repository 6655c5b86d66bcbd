//! Board geometry and the externally observable cell state.
//!
//! The engine collaborator owns the real board; this module models the part
//! of it that scheduling decisions read: the board dimensions, the per-cell
//! `{state, type}` pair of a snapshot, and the game status.

use vstd::prelude::*;

verus! {

/// A board coordinate: column (`x`) then row (`y`).
pub type Point = (usize, usize);

/// Status of the game as the engine reports it in a snapshot.
#[derive(Clone, Copy, Debug, PartialEq, Eq, Structural)]
pub enum GameStatus {
    Playing,
    Won,
    Lost,
    Never,
}

/// What a snapshot says a cell contains: a safe cell with its adjacent mine
/// count, a mine, or still hidden.
#[derive(Clone, Copy, Debug, PartialEq, Eq, Structural)]
pub enum CellType {
    Safe(u8),
    Mine,
    Unknown,
}

/// How a cell is currently presented: untouched, revealed, or flagged.
#[derive(Clone, Copy, Debug, PartialEq, Eq, Structural)]
pub enum CellState {
    Unknown,
    Revealed,
    Flagged,
}

/// One cell of a board snapshot.
#[derive(Clone, Copy, Debug, PartialEq, Eq, Structural)]
pub struct BoardCell {
    pub cell_type: CellType,
    pub cell_state: CellState,
}

/// Why a requested board size was rejected.
#[derive(Clone, Copy, Debug, PartialEq, Eq, Structural)]
pub enum BoardSizeError {
    InvalidSize { width: usize, height: usize },
    TooManyMines { mines: usize },
    TooFewMines,
}

/// Validated board dimensions: both sides and the mine count are positive,
/// and there is at least one free cell.
#[derive(Clone, Copy, Debug, PartialEq, Eq, Structural)]
pub struct BoardSize {
    width: usize,
    height: usize,
    mines: usize,
}

/// The three stock board sizes.
#[derive(Clone, Copy, Debug, PartialEq, Eq, Structural)]
pub enum ConventionalSize {
    Beginner,
    Intermediate,
    Expert,
}

impl BoardSize {
    pub closed spec fn spec_width(&self) -> usize {
        self.width
    }

    pub closed spec fn spec_height(&self) -> usize {
        self.height
    }

    pub closed spec fn spec_mines(&self) -> usize {
        self.mines
    }

    /// The invariant every constructed `BoardSize` satisfies.
    #[verifier::type_invariant]
    pub open spec fn wf(&self) -> bool {
        &&& 0 < self.spec_width()
        &&& 0 < self.spec_height()
        &&& 0 < self.spec_mines()
        &&& (self.spec_mines() as int) < (self.spec_width() as int) * (self.spec_height() as int)
    }

    /// Whether the given dimensions are acceptable.
    pub open spec fn spec_valid(width: usize, height: usize, mines: usize) -> bool {
        &&& 0 < width
        &&& 0 < height
        &&& 0 < mines
        &&& (mines as int) < (width as int) * (height as int)
    }

    /// Validates the dimensions; returns exactly which rule failed otherwise.
    /// A zero side is reported first, then a zero mine count, then a mine
    /// count that fills (or overfills) the whole board.
    pub fn new(width: usize, height: usize, mines: usize) -> (r: Result<BoardSize, BoardSizeError>)
        ensures
            r is Ok <==> Self::spec_valid(width, height, mines),
            r matches Ok(s) ==> s.spec_width() == width && s.spec_height() == height
                && s.spec_mines() == mines && s.wf(),
            (width == 0 || height == 0) ==> r == Result::<BoardSize, BoardSizeError>::Err(
                BoardSizeError::InvalidSize { width, height }),
            (width > 0 && height > 0 && mines == 0) ==> r == Result::<
                BoardSize,
                BoardSizeError,
            >::Err(BoardSizeError::TooFewMines),
            (width > 0 && height > 0 && mines > 0 && !Self::spec_valid(width, height, mines))
                ==> r == Result::<BoardSize, BoardSizeError>::Err(
                BoardSizeError::TooManyMines { mines }),
    {
        if width == 0 || height == 0 {
            return Err(BoardSizeError::InvalidSize { width, height });
        }
        if mines == 0 {
            return Err(BoardSizeError::TooFewMines);
        }
        let fits = match width.checked_mul(height) {
            Some(product) => mines < product,
            None => true,
        };
        if !fits {
            return Err(BoardSizeError::TooManyMines { mines });
        }
        Ok(BoardSize { width, height, mines })
    }

    pub fn width(&self) -> (r: usize)
        ensures
            r == self.spec_width(),
    {
        self.width
    }

    pub fn height(&self) -> (r: usize)
        ensures
            r == self.spec_height(),
    {
        self.height
    }

    pub fn mines(&self) -> (r: usize)
        ensures
            r == self.spec_mines(),
    {
        self.mines
    }

    /// Whether a point lies on the board.
    pub open spec fn in_bounds(&self, p: Point) -> bool {
        p.0 < self.spec_width() && p.1 < self.spec_height()
    }

    /// Whether `q` is one of the up-to-eight direct neighbours of `p`.
    pub open spec fn is_neighbour(&self, p: Point, q: Point) -> bool {
        &&& self.in_bounds(q)
        &&& q != p
        &&& q.0 <= p.0 + 1
        &&& p.0 <= q.0 + 1
        &&& q.1 <= p.1 + 1
        &&& p.1 <= q.1 + 1
    }

    /// A single-point sequence when `(cx, cy)` lies on the board, else empty.
    pub open spec fn opt_pt(&self, cx: int, cy: int) -> Seq<Point> {
        if 0 <= cx < self.spec_width() && 0 <= cy < self.spec_height() {
            seq![(cx as usize, cy as usize)]
        } else {
            Seq::empty()
        }
    }

    /// The direct neighbours of `p`, rows top to bottom, left to right
    /// within a row.
    pub open spec fn neighbours_seq(&self, p: Point) -> Seq<Point> {
        let x = p.0 as int;
        let y = p.1 as int;
        self.opt_pt(x - 1, y - 1) + self.opt_pt(x, y - 1) + self.opt_pt(x + 1, y - 1) + self.opt_pt(
            x - 1,
            y,
        ) + self.opt_pt(x + 1, y) + self.opt_pt(x - 1, y + 1) + self.opt_pt(x, y + 1) + self.opt_pt(
            x + 1,
            y + 1,
        )
    }

    /// The direct neighbours of `p` in the order of `neighbours_seq`.
    pub fn neighbours(&self, p: Point) -> (r: Vec<Point>)
        ensures
            r@ == self.neighbours_seq(p),
    {
        let x = p.0;
        let y = p.1;
        let mut r: Vec<Point> = Vec::new();
        if y >= 1 {
            if x >= 1 && x - 1 < self.width && y - 1 < self.height {
                r.push((x - 1, y - 1));
            }
            if x < self.width && y - 1 < self.height {
                r.push((x, y - 1));
            }
            if x < usize::MAX && x + 1 < self.width && y - 1 < self.height {
                r.push((x + 1, y - 1));
            }
        }
        if x >= 1 && x - 1 < self.width && y < self.height {
            r.push((x - 1, y));
        }
        if x < usize::MAX && x + 1 < self.width && y < self.height {
            r.push((x + 1, y));
        }
        if y < usize::MAX && y + 1 < self.height {
            if x >= 1 && x - 1 < self.width {
                r.push((x - 1, y + 1));
            }
            if x < self.width {
                r.push((x, y + 1));
            }
            if x < usize::MAX && x + 1 < self.width {
                r.push((x + 1, y + 1));
            }
        }
        assert(r@ =~= self.neighbours_seq(p));
        r
    }

    /// A point is listed among the neighbours of `p` exactly when it is a
    /// direct neighbour of `p`, each neighbour is listed once, and there are
    /// at most eight of them.
    #[verifier::rlimit(50)]
    pub proof fn lemma_neighbours(&self, p: Point)
        ensures
            forall|q: Point| self.neighbours_seq(p).contains(q) <==> self.is_neighbour(p, q),
            self.neighbours_seq(p).no_duplicates(),
            self.neighbours_seq(p).len() <= 8,
    {
        broadcast use vstd::seq_lib::lemma_seq_concat_contains_all_elements;

        let x = p.0 as int;
        let y = p.1 as int;
        let s = self.neighbours_seq(p);
        assert forall|q: Point| s.contains(q) implies self.is_neighbour(p, q) by {
            assert(self.opt_pt(x - 1, y - 1).contains(q) || self.opt_pt(x, y - 1).contains(q)
                || self.opt_pt(x + 1, y - 1).contains(q) || self.opt_pt(x - 1, y).contains(q)
                || self.opt_pt(x + 1, y).contains(q) || self.opt_pt(x - 1, y + 1).contains(q)
                || self.opt_pt(x, y + 1).contains(q) || self.opt_pt(x + 1, y + 1).contains(q));
        }
        assert forall|q: Point| self.is_neighbour(p, q) implies s.contains(q) by {
            let cx = q.0 as int;
            let cy = q.1 as int;
            assert(cx == x - 1 || cx == x || cx == x + 1);
            assert(cy == y - 1 || cy == y || cy == y + 1);
            let single = self.opt_pt(cx, cy);
            assert(single =~= seq![q]);
            assert(single[0] == q);
            assert(single.contains(q));
        }
        let t1 = self.opt_pt(x - 1, y - 1);
        let t2 = t1 + self.opt_pt(x, y - 1);
        let t3 = t2 + self.opt_pt(x + 1, y - 1);
        let t4 = t3 + self.opt_pt(x - 1, y);
        let t5 = t4 + self.opt_pt(x + 1, y);
        let t6 = t5 + self.opt_pt(x - 1, y + 1);
        let t7 = t6 + self.opt_pt(x, y + 1);
        let t8 = t7 + self.opt_pt(x + 1, y + 1);
        self.lemma_opt_pt_step(t1, self.opt_pt(x, y - 1), x, y - 1);
        self.lemma_opt_pt_step(t2, self.opt_pt(x + 1, y - 1), x + 1, y - 1);
        self.lemma_opt_pt_step(t3, self.opt_pt(x - 1, y), x - 1, y);
        self.lemma_opt_pt_step(t4, self.opt_pt(x + 1, y), x + 1, y);
        self.lemma_opt_pt_step(t5, self.opt_pt(x - 1, y + 1), x - 1, y + 1);
        self.lemma_opt_pt_step(t6, self.opt_pt(x, y + 1), x, y + 1);
        self.lemma_opt_pt_step(t7, self.opt_pt(x + 1, y + 1), x + 1, y + 1);
        assert(s == t8);
    }

    /// Appending the candidate at `(cx, cy)` to an accumulated prefix that
    /// does not yet mention that coordinate keeps the sequence free of
    /// duplicates.
    proof fn lemma_opt_pt_step(&self, acc: Seq<Point>, part: Seq<Point>, cx: int, cy: int)
        requires
            acc.no_duplicates(),
            part == self.opt_pt(cx, cy),
            forall|q: Point| acc.contains(q) ==> !(q.0 == cx && q.1 == cy),
        ensures
            (acc + part).no_duplicates(),
            forall|q: Point| (acc + part).contains(q) ==> acc.contains(q) || (q.0 == cx && q.1
                == cy),
    {
        broadcast use vstd::seq_lib::lemma_seq_concat_contains_all_elements;

        let both = acc + part;
        assert forall|i: int, j: int|
            0 <= i < both.len() && 0 <= j < both.len() && i != j implies both[i] != both[j] by {
            if i < acc.len() && j < acc.len() {
            } else if i >= acc.len() && j >= acc.len() {
                assert(part.len() <= 1);
            } else {
                let (a, b) = if i < acc.len() {
                    (i, j)
                } else {
                    (j, i)
                };
                assert(acc.contains(both[a]));
                assert(part.contains(both[b]));
            }
        }
    }

    /// All points of the board, rows top to bottom, left to right within a
    /// row; the point `(x, y)` sits at index `y * width + x`.
    pub fn points(&self) -> (r: Vec<Point>)
        ensures
            r@.len() == (self.spec_width() as int) * (self.spec_height() as int),
            forall|i: int|
                0 <= i < r@.len() ==> (#[trigger] r@[i]).0 == i % (self.spec_width() as int)
                    && r@[i].1 == i / (self.spec_width() as int),
            forall|i: int| 0 <= i < r@.len() ==> self.in_bounds(#[trigger] r@[i]),
    {
        let w = self.width;
        let h = self.height;
        let mut r: Vec<Point> = Vec::new();
        if w == 0 {
            return r;
        }
        let mut y: usize = 0;
        while y < h
            invariant
                y <= h,
                w > 0,
                r@.len() == (w as int) * (y as int),
                forall|i: int|
                    0 <= i < r@.len() ==> (#[trigger] r@[i]).0 == i % (w as int) && r@[i].1 == i / (
                    w as int),
                forall|i: int| 0 <= i < r@.len() ==> (#[trigger] r@[i]).0 < w && r@[i].1 < h,
            decreases h - y,
        {
            let mut x: usize = 0;
            while x < w
                invariant
                    x <= w,
                    y < h,
                    w > 0,
                    r@.len() == (w as int) * (y as int) + x,
                    forall|i: int|
                        0 <= i < r@.len() ==> (#[trigger] r@[i]).0 == i % (w as int) && r@[i].1 == i
                            / (w as int),
                    forall|i: int| 0 <= i < r@.len() ==> (#[trigger] r@[i]).0 < w && r@[i].1 < h,
                decreases w - x,
            {
                proof {
                    let wi = w as int;
                    let xi = x as int;
                    let yi = y as int;
                    assert((wi * yi + xi) % wi == xi && (wi * yi + xi) / wi == yi && wi * yi + xi
                        >= 0) by (nonlinear_arith)
                        requires
                            wi > 0,
                            0 <= xi < wi,
                            0 <= yi,
                    ;
                }
                r.push((x, y));
                x = x + 1;
            }
            proof {
                let wi = w as int;
                let yi = y as int;
                assert(wi * (yi + 1) == wi * yi + wi) by (nonlinear_arith);
            }
            y = y + 1;
        }
        r
    }
}

impl ConventionalSize {
    /// The classic dimensions for each difficulty.
    pub fn size(self) -> (r: BoardSize)
        ensures
            r.wf(),
            self is Beginner ==> r.spec_width() == 9 && r.spec_height() == 9 && r.spec_mines()
                == 10,
            self is Intermediate ==> r.spec_width() == 16 && r.spec_height() == 16
                && r.spec_mines() == 40,
            self is Expert ==> r.spec_width() == 30 && r.spec_height() == 16 && r.spec_mines()
                == 99,
    {
        match self {
            ConventionalSize::Beginner => BoardSize { width: 9, height: 9, mines: 10 },
            ConventionalSize::Intermediate => BoardSize { width: 16, height: 16, mines: 40 },
            ConventionalSize::Expert => BoardSize { width: 30, height: 16, mines: 99 },
        }
    }
}

} // verus!
