//! A rectangular grid stored as a vector of columns, indexed by `Point`.

use vstd::prelude::*;
use crate::board::Point;

verus! {

/// `width` columns of `height` entries each; entry `(x, y)` lives in column
/// `x` at row `y`.
#[derive(Clone, Debug)]
pub struct Grid<E> {
    grid: Vec<Vec<E>>,
    width: usize,
    height: usize,
}

impl<E> View for Grid<E> {
    type V = Seq<Seq<E>>;

    closed spec fn view(&self) -> Seq<Seq<E>> {
        Seq::new(self.grid@.len(), |i: int| self.grid@[i]@)
    }
}

impl<E> Grid<E> {
    pub closed spec fn spec_width(&self) -> usize {
        self.width
    }

    pub closed spec fn spec_height(&self) -> usize {
        self.height
    }

    /// The columns match the stated dimensions.
    pub open spec fn wf(&self) -> bool {
        &&& self@.len() == self.spec_width()
        &&& forall|i: int| 0 <= i < self@.len() ==> (#[trigger] self@[i]).len() == self.spec_height()
    }

    /// The entry at `p`.
    pub open spec fn spec_at(&self, p: Point) -> E {
        self@[p.0 as int][p.1 as int]
    }

    /// Wraps ready-made columns whose dimensions match.
    pub fn from_2d_vec(vec: Vec<Vec<E>>, width: usize, height: usize) -> (r: Grid<E>)
        requires
            vec@.len() == width,
            forall|i: int| 0 <= i < vec@.len() ==> (#[trigger] vec@[i]).len() == height,
        ensures
            r.wf(),
            r.spec_width() == width,
            r.spec_height() == height,
            forall|i: int| 0 <= i < width ==> #[trigger] r@[i] == vec@[i]@,
    {
        let r = Grid { grid: vec, width, height };
        proof {
            assert(forall|i: int| 0 <= i < width ==> #[trigger] r@[i] == r.grid@[i]@);
        }
        r
    }

    pub fn width(&self) -> (r: usize)
        ensures
            r == self.spec_width(),
    {
        self.width
    }

    pub fn height(&self) -> (r: usize)
        ensures
            r == self.spec_height(),
    {
        self.height
    }

    /// Read access to the entry at `p`.
    pub fn get(&self, p: Point) -> (r: &E)
        requires
            self.wf(),
            p.0 < self.spec_width(),
            p.1 < self.spec_height(),
        ensures
            *r == self.spec_at(p),
    {
        proof {
            assert(self@[p.0 as int] == self.grid@[p.0 as int]@);
        }
        &self.grid[p.0][p.1]
    }

    /// Mutable access to the entry at `(x, y)`; the grid is unchanged
    /// elsewhere.  Element-wise mutation goes through this accessor, since
    /// an iterator handing out mutable references cannot be specified.
    pub fn iter_mut(&mut self, x: usize, y: usize) -> (r: &mut E)
        requires
            old(self).wf(),
            x < old(self).spec_width(),
            y < old(self).spec_height(),
        ensures
            *r == old(self).spec_at((x, y)),
            final(self)@ == old(self)@.update(
                x as int,
                old(self)@[x as int].update(y as int, *final(r)),
            ),
            final(self).spec_width() == old(self).spec_width(),
            final(self).spec_height() == old(self).spec_height(),
            final(self).wf(),
    {
        proof {
            assert(self@[x as int] == self.grid@[x as int]@);
        }
        let col: &mut Vec<E> = &mut self.grid[x];
        &mut col[y]
    }
}

impl<E> Grid<E> {
    /// Overwrites the entry at `p`; the grid is unchanged elsewhere.
    pub fn set(&mut self, p: Point, v: E)
        requires
            old(self).wf(),
            p.0 < old(self).spec_width(),
            p.1 < old(self).spec_height(),
        ensures
            final(self).wf(),
            final(self).spec_width() == old(self).spec_width(),
            final(self).spec_height() == old(self).spec_height(),
            final(self)@ == old(self)@.update(
                p.0 as int,
                old(self)@[p.0 as int].update(p.1 as int, v),
            ),
            forall|q: Point|
                q.0 < old(self).spec_width() && q.1 < old(self).spec_height()
                    ==> #[trigger] final(self).spec_at(q) == (if q == p {
                    v
                } else {
                    old(self).spec_at(q)
                }),
    {
        let slot = self.iter_mut(p.0, p.1);
        *slot = v;
    }
}

impl<E: Copy> Grid<E> {
    /// A `width` by `height` grid with every entry equal to `fill`.
    pub fn new(width: usize, height: usize, fill: E) -> (r: Grid<E>)
        ensures
            r.wf(),
            r.spec_width() == width,
            r.spec_height() == height,
            forall|i: int, j: int|
                0 <= i < width && 0 <= j < height ==> #[trigger] r@[i][j] == fill,
    {
        let mut columns: Vec<Vec<E>> = Vec::new();
        let mut x: usize = 0;
        while x < width
            invariant
                x <= width,
                columns@.len() == x,
                forall|i: int| 0 <= i < x ==> (#[trigger] columns@[i])@.len() == height,
                forall|i: int, j: int|
                    0 <= i < x && 0 <= j < height ==> #[trigger] columns@[i]@[j] == fill,
            decreases width - x,
        {
            let mut column: Vec<E> = Vec::new();
            let mut y: usize = 0;
            while y < height
                invariant
                    y <= height,
                    column@.len() == y,
                    forall|j: int| 0 <= j < y ==> #[trigger] column@[j] == fill,
                decreases height - y,
            {
                column.push(fill);
                y = y + 1;
            }
            columns.push(column);
            x = x + 1;
        }
        Grid::from_2d_vec(columns, width, height)
    }

    /// Copies every entry out, columns concatenated in order.
    pub fn iter(&self) -> (r: Vec<E>)
        requires
            self.wf(),
        ensures
            r@ == self@.flatten(),
    {
        let mut r: Vec<E> = Vec::new();
        let mut x: usize = 0;
        proof {
            assert(self@.take(0) =~= Seq::<Seq<E>>::empty());
            assert(Seq::<Seq<E>>::empty().flatten() =~= Seq::<E>::empty());
        }
        while x < self.width
            invariant
                self.wf(),
                x <= self.spec_width(),
                r@ == self@.take(x as int).flatten(),
            decreases self.spec_width() - x,
        {
            let mut y: usize = 0;
            let ghost prefix = r@;
            while y < self.height
                invariant
                    self.wf(),
                    x < self.spec_width(),
                    y <= self.spec_height(),
                    r@ == prefix + self@[x as int].take(y as int),
                decreases self.spec_height() - y,
            {
                r.push(self.grid[x][y]);
                proof {
                    assert(r@ =~= prefix + self@[x as int].take(y as int + 1));
                }
                y = y + 1;
            }
            proof {
                assert(self@[x as int].take(self.spec_height() as int) =~= self@[x as int]);
                self@.take(x as int).lemma_flatten_push(self@[x as int]);
                assert(self@.take(x as int).push(self@[x as int]) =~= self@.take(x as int + 1));
            }
            x = x + 1;
        }
        proof {
            assert(self@.take(self.spec_width() as int) =~= self@);
        }
        r
    }
}

} // verus!
