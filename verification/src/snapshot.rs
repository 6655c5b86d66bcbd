//! A board snapshot as the engine reports it: per-cell `{state, type}`,
//! the remaining-mine count and the game status.  Scheduling decisions read
//! snapshots; they never write them.

use vstd::prelude::*;
use crate::board::{BoardCell, BoardSize, CellState, GameStatus, Point};
use crate::grid::Grid;

verus! {

/// One observation of the engine's state.
pub struct BoardState {
    pub size: BoardSize,
    pub cells: Grid<BoardCell>,
    pub remaining_mines: isize,
    pub status: GameStatus,
}

impl BoardState {
    pub open spec fn wf(&self) -> bool {
        &&& self.size.wf()
        &&& self.cells.wf()
        &&& self.cells.spec_width() == self.size.spec_width()
        &&& self.cells.spec_height() == self.size.spec_height()
    }

    /// The cell at `p`.
    pub open spec fn at(&self, p: Point) -> BoardCell {
        self.cells.spec_at(p)
    }

    /// Of the listed points, those whose cell is still untouched (neither
    /// revealed nor flagged), in the order given.
    pub open spec fn unknowns_of(&self, ps: Seq<Point>) -> Seq<Point>
        decreases ps.len(),
    {
        if ps.len() == 0 {
            Seq::empty()
        } else {
            self.unknowns_of(ps.drop_last()) + (if self.at(ps.last()).cell_state
                == CellState::Unknown {
                seq![ps.last()]
            } else {
                Seq::empty()
            })
        }
    }

    /// The still-unknown direct neighbours of `p`, in neighbour order.
    pub open spec fn spec_unknown_neighbours(&self, p: Point) -> Seq<Point> {
        self.unknowns_of(self.size.neighbours_seq(p))
    }

    pub fn unknown_neighbours(&self, p: Point) -> (r: Vec<Point>)
        requires
            self.wf(),
        ensures
            r@ == self.spec_unknown_neighbours(p),
    {
        let ns = self.size.neighbours(p);
        let mut r: Vec<Point> = Vec::new();
        let mut i: usize = 0;
        proof {
            assert(ns@.take(0) =~= Seq::<Point>::empty());
            self.size.lemma_neighbours(p);
        }
        while i < ns.len()
            invariant
                self.wf(),
                i <= ns@.len(),
                ns@ == self.size.neighbours_seq(p),
                forall|j: int| 0 <= j < ns@.len() ==> self.size.in_bounds(#[trigger] ns@[j]),
                r@ == self.unknowns_of(ns@.take(i as int)),
            decreases ns@.len() - i,
        {
            let q = ns[i];
            proof {
                assert(ns@.take(i as int + 1).drop_last() =~= ns@.take(i as int));
                assert(ns@.take(i as int + 1).last() == q);
            }
            let c = self.cells.get(q);
            if matches!(c.cell_state, CellState::Unknown) {
                r.push(q);
            }
            i = i + 1;
        }
        proof {
            assert(ns@.take(ns@.len() as int) =~= ns@);
        }
        r
    }
}

/// The unknown points selected from a duplicate-free, in-bounds point list
/// are themselves duplicate-free, in bounds, and exactly the unknown ones
/// among the listed points.
pub proof fn lemma_unknowns_of(snap: BoardState, ps: Seq<Point>)
    ensures
        forall|q: Point|
            #[trigger] snap.unknowns_of(ps).contains(q) <==> ps.contains(q) && snap.at(
                q,
            ).cell_state == CellState::Unknown,
        ps.no_duplicates() ==> snap.unknowns_of(ps).no_duplicates(),
        snap.unknowns_of(ps).len() <= ps.len(),
    decreases ps.len(),
{
    if ps.len() > 0 {
        let pre = ps.drop_last();
        lemma_unknowns_of(snap, pre);
        assert(pre.no_duplicates() ==> snap.unknowns_of(pre).no_duplicates());
        assert forall|q: Point| ps.contains(q) implies q == ps.last() || pre.contains(q) by {
            let j = choose|j: int| 0 <= j < ps.len() && ps[j] == q;
            if j < ps.len() - 1 {
                assert(pre[j] == q);
            }
        }
        assert forall|q: Point| pre.contains(q) implies ps.contains(q) by {
            let j = choose|j: int| 0 <= j < pre.len() && pre[j] == q;
            assert(ps[j] == q);
        }
        if snap.at(ps.last()).cell_state == CellState::Unknown {
            let tail = seq![ps.last()];
            let whole = snap.unknowns_of(pre) + tail;
            assert(snap.unknowns_of(ps) == whole);
            assert forall|q: Point| whole.contains(q) implies snap.unknowns_of(pre).contains(q)
                || q == ps.last() by {
                let j = choose|j: int| 0 <= j < whole.len() && whole[j] == q;
                if j < snap.unknowns_of(pre).len() {
                    assert(snap.unknowns_of(pre)[j] == q);
                }
            }
            assert(whole.contains(ps.last())) by {
                assert(whole[whole.len() - 1] == ps.last());
            }
            assert forall|q: Point| snap.unknowns_of(pre).contains(q) implies whole.contains(
                q,
            ) by {
                let j = choose|j: int| 0 <= j < snap.unknowns_of(pre).len() && snap.unknowns_of(
                    pre,
                )[j] == q;
                assert(whole[j] == q);
            }
            if ps.no_duplicates() {
                assert(pre.no_duplicates());
                assert(!pre.contains(ps.last())) by {
                    if pre.contains(ps.last()) {
                        let j = choose|j: int| 0 <= j < pre.len() && pre[j] == ps.last();
                        assert(ps[j] == ps[ps.len() - 1]);
                    }
                }
                assert forall|a: int, b: int|
                    0 <= a < whole.len() && 0 <= b < whole.len() && a != b implies whole[a]
                    != whole[b] by {
                    if a < whole.len() - 1 && b < whole.len() - 1 {
                        assert(whole[a] == snap.unknowns_of(pre)[a]);
                        assert(whole[b] == snap.unknowns_of(pre)[b]);
                    } else {
                        let (lo, hi) = if a < b {
                            (a, b)
                        } else {
                            (b, a)
                        };
                        assert(whole[hi] == ps.last());
                        assert(whole[lo] == snap.unknowns_of(pre)[lo]);
                        assert(snap.unknowns_of(pre).contains(whole[lo]));
                    }
                }
            }
        } else {
            assert(snap.unknowns_of(ps) == snap.unknowns_of(pre));
            assert forall|q: Point|
                snap.unknowns_of(ps).contains(q) implies ps.contains(q) && snap.at(q).cell_state
                == CellState::Unknown by {
                assert(pre.contains(q));
            }
        }
    }
}

} // verus!
