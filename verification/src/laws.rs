//! The library's cross-cutting guarantees, stated and proved as lemmas
//! over the contracts of the session operations.

use vstd::prelude::*;
use crate::auto::EngineCall;
use crate::board::{BoardSize, CellState, CellType, Point};
use crate::cell::{Cell, MouseButton};
use crate::cell;
use crate::game::{
    spec_apply_gesture, spec_cell_after, spec_cell_result, spec_gesture_effect,
    spec_left_click_calls, spec_prop_runs, Effect, MinsweeperGame,
};
use crate::snapshot::{lemma_unknowns_of, BoardState};

verus! {

/// Reveal counters are balanced: in a well-formed session every cell's
/// counter equals the combined hold of the outstanding operations on it
/// (that is `wf` itself), so once every operation that acquired a cell
/// has finished or been swept away by a restart — the registry is empty —
/// the counter of every cell is back to exactly zero.  Counters are
/// unsigned, so they are never negative.
pub proof fn lemma_counters_zero_when_idle(g: MinsweeperGame)
    requires
        g.wf(),
        g.spec_registry().entries_seq().len() == 0,
    ensures
        forall|p: Point| #[trigger] g.spec_size().in_bounds(p) ==> g.cell_at(p).revealing == 0,
{
    assert forall|p: Point| #[trigger] g.spec_size().in_bounds(p) implies g.cell_at(p).revealing
        == 0 by {
        assert(g.spec_registry().spec_load(p) == 0);
    }
}

/// Flag-chord: on a revealed cell numbered `n` with exactly `n`
/// still-unknown neighbours, a manual reveal issues exactly `n` flag
/// toggles — one per unknown neighbour, no cell twice — and then the
/// reveal call.  When the unknown-neighbour count differs from `n`, or
/// the convenience is disabled, no flag toggle is issued and only the
/// reveal call proceeds.
pub proof fn lemma_flag_chord(snap: &BoardState, p: Point, n: u8)
    requires
        snap.at(p).cell_type == CellType::Safe(n),
    ensures
        snap.spec_unknown_neighbours(p).len() == n ==> ({
            let unknowns = snap.spec_unknown_neighbours(p);
            let calls = spec_left_click_calls(snap, p, true);
            &&& calls.len() == n + 1
            &&& forall|k: int|
                0 <= k < n ==> calls[k] == EngineCall::ToggleFlag(unknowns[k])
            &&& calls[n as int] == EngineCall::Reveal(p)
            &&& unknowns.no_duplicates()
            &&& forall|q: Point|
                #[trigger] unknowns.contains(q) <==> snap.size.is_neighbour(p, q) && snap.at(
                    q,
                ).cell_state == CellState::Unknown
        }),
        snap.spec_unknown_neighbours(p).len() != n ==> spec_left_click_calls(snap, p, true)
            == seq![EngineCall::Reveal(p)],
        spec_left_click_calls(snap, p, false) == seq![EngineCall::Reveal(p)],
{
    snap.size.lemma_neighbours(p);
    lemma_unknowns_of(*snap, snap.size.neighbours_seq(p));
    let unknowns = snap.spec_unknown_neighbours(p);
    assert forall|q: Point| #[trigger] unknowns.contains(q) implies snap.size.is_neighbour(p, q)
        && snap.at(q).cell_state == CellState::Unknown by {
        assert(snap.size.neighbours_seq(p).contains(q));
    }
    assert forall|q: Point|
        snap.size.is_neighbour(p, q) && snap.at(q).cell_state
            == CellState::Unknown implies #[trigger] unknowns.contains(q) by {
        assert(snap.size.neighbours_seq(p).contains(q));
    }
}

/// Hover-chord: with the convenience enabled, entering a revealed
/// numbered cell launches exactly the operation a left release on that
/// (pressed) cell launches — the same reveal on the same point, hence
/// the same reveal-set acquisition when the driver launches it against
/// the same snapshot.  With the convenience disabled, entering a cell
/// never launches anything.
pub proof fn lemma_hover_chord(c_enter: Cell, c_release: Cell, snap: &BoardState, p: Point, n: u8)
    requires
        snap.at(p).cell_type == CellType::Safe(n),
        n > 0,
        c_release.pressed,
    ensures
        spec_gesture_effect(c_enter, cell::Message::Enter, snap, p, true) == Effect::LaunchReveal(
            p,
        ),
        spec_gesture_effect(c_enter, cell::Message::Enter, snap, p, true) == spec_gesture_effect(
            c_release,
            cell::Message::SelfRelease(MouseButton::Left),
            snap,
            p,
            true,
        ),
        spec_gesture_effect(c_enter, cell::Message::Enter, snap, p, false) == Effect::Nothing,
{
}

/// Entering any cell with hover-chord disabled launches nothing,
/// whatever the cell contains.
pub proof fn lemma_hover_chord_disabled(c: Cell, snap: &BoardState, p: Point)
    ensures
        spec_gesture_effect(c, cell::Message::Enter, snap, p, false) == Effect::Nothing,
{
}

/// Force-propagation: when a gesture on a revealed numbered cell runs
/// the propagation pass, exactly the direct neighbours of the target
/// take the target's new down state as their forced-armed flag — their
/// other fields untouched — and every other cell is untouched; cells
/// beyond the direct neighbours are never reached.  The same gesture
/// with the target no longer down (a release, an exit) thus sets the
/// same neighbours' flags back to false and no others.
pub proof fn lemma_force_propagation(
    cells: Seq<Seq<Cell>>,
    size: BoardSize,
    snap: &BoardState,
    point: Point,
    msg: cell::Message,
    hover_chord: bool,
    q: Point,
)
    requires
        size.in_bounds(q),
        q != point,
        cells.len() == size.spec_width(),
        forall|i: int| 0 <= i < cells.len() ==> (#[trigger] cells[i]).len() == size.spec_height(),
        spec_prop_runs(
            spec_cell_after(cells[point.0 as int][point.1 as int], msg),
            msg,
            snap,
            point,
            spec_gesture_effect(
                cells[point.0 as int][point.1 as int],
                msg,
                snap,
                point,
                hover_chord,
            ),
        ),
    ensures
        size.is_neighbour(point, q) ==> spec_apply_gesture(
            cells,
            size,
            snap,
            point,
            msg,
            hover_chord,
        )[q.0 as int][q.1 as int] == (Cell {
            force: spec_cell_after(cells[point.0 as int][point.1 as int], msg).spec_is_down(),
            ..cells[q.0 as int][q.1 as int]
        }),
        !size.is_neighbour(point, q) ==> spec_apply_gesture(
            cells,
            size,
            snap,
            point,
            msg,
            hover_chord,
        )[q.0 as int][q.1 as int] == cells[q.0 as int][q.1 as int],
{
    assert(spec_apply_gesture(cells, size, snap, point, msg, hover_chord)[q.0 as int][q.1 as int]
        == spec_cell_result(cells, size, snap, point, msg, hover_chord, q));
}

} // verus!
