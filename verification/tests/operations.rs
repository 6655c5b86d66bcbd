use futures_util::future::AbortHandle;
use minsweeper_client::auto::EngineCall;
use minsweeper_client::board::{BoardCell, BoardSize, CellState, CellType, GameStatus, Point};
use minsweeper_client::cell::{Message as CellMessage, MouseButton};
use minsweeper_client::game::{left_click_calls, reveal_set, Effect, Message, MinsweeperGame};
use minsweeper_client::grid::Grid;
use minsweeper_client::registry::ActionRegistry;
use minsweeper_client::settings::{AutoplayConfig, KnownSolver};
use minsweeper_client::snapshot::BoardState;
use minsweeper_client::texture::Texture;

fn handle() -> AbortHandle {
    AbortHandle::new_pair().0
}

fn blank_snapshot(width: usize, height: usize) -> BoardState {
    let size = BoardSize::new(width, height, 1).unwrap();
    BoardState {
        size,
        cells: Grid::new(
            width,
            height,
            BoardCell { cell_type: CellType::Unknown, cell_state: CellState::Unknown },
        ),
        remaining_mines: 1,
        status: GameStatus::Playing,
    }
}

fn game(flag_chord: bool) -> MinsweeperGame {
    MinsweeperGame::new(
        BoardSize::new(3, 3, 1).unwrap(),
        KnownSolver::MiaSolver,
        Texture::Dark,
        AutoplayConfig::default(),
        flag_chord,
        false,
    )
}

/// The board of the worked example: a 3 by 3 board whose centre is
/// revealed with number 2, two of its neighbours flagged, the other six
/// untouched.
fn example_snapshot() -> BoardState {
    let mut snap = blank_snapshot(3, 3);
    snap.cells.set(
        (1, 1),
        BoardCell { cell_type: CellType::Safe(2), cell_state: CellState::Revealed },
    );
    snap.cells.set(
        (0, 0),
        BoardCell { cell_type: CellType::Unknown, cell_state: CellState::Flagged },
    );
    snap.cells.set(
        (2, 0),
        BoardCell { cell_type: CellType::Unknown, cell_state: CellState::Flagged },
    );
    snap
}

#[test]
fn registry_registers_and_completes() {
    let mut reg = ActionRegistry::new();
    let t1 = reg.register(handle(), Vec::new());
    let t2 = reg.register(handle(), Vec::new());
    assert_ne!(t1, t2);
    assert_eq!(reg.len(), 2);
    assert!(reg.contains(t1));
    reg.complete(t1);
    assert!(!reg.contains(t1));
    assert!(reg.contains(t2));
    assert_eq!(reg.len(), 1);
    // Completing again is a no-op.
    reg.complete(t1);
    assert_eq!(reg.len(), 1);
}

#[test]
fn cancel_all_aborts_every_registered_operation() {
    let mut reg = ActionRegistry::new();
    let (h1, _r1) = AbortHandle::new_pair();
    let (h2, _r2) = AbortHandle::new_pair();
    reg.register(h1.clone(), Vec::new());
    reg.register(h2.clone(), Vec::new());
    assert!(!h1.is_aborted() && !h2.is_aborted());
    reg.cancel_all();
    assert_eq!(reg.len(), 0);
    assert!(h1.is_aborted());
    assert!(h2.is_aborted());
}

#[test]
fn reveal_set_of_an_unknown_cell_is_the_cell_itself() {
    let snap = blank_snapshot(3, 3);
    assert_eq!(reveal_set(&snap, (0, 1)), vec![(0, 1)]);
}

#[test]
fn reveal_set_of_a_numbered_cell_is_its_neighbourhood() {
    let snap = example_snapshot();
    assert_eq!(
        reveal_set(&snap, (1, 1)),
        vec![(0, 0), (1, 0), (2, 0), (0, 1), (2, 1), (0, 2), (1, 2), (2, 2)]
    );
}

#[test]
fn flag_chord_fires_when_the_count_matches() {
    // Centre numbered 2, exactly two untouched neighbours, the rest
    // revealed: two flags, then the reveal.
    let mut snap = blank_snapshot(3, 3);
    snap.cells.set(
        (1, 1),
        BoardCell { cell_type: CellType::Safe(2), cell_state: CellState::Revealed },
    );
    for q in [(0usize, 0usize), (1, 0), (2, 0), (0, 1), (0, 2), (1, 2)] {
        snap.cells.set(
            q,
            BoardCell { cell_type: CellType::Safe(1), cell_state: CellState::Revealed },
        );
    }
    // (2, 1) and (2, 2) stay untouched.
    let calls = left_click_calls(&snap, (1, 1), true);
    assert_eq!(
        calls,
        vec![
            EngineCall::ToggleFlag((2, 1)),
            EngineCall::ToggleFlag((2, 2)),
            EngineCall::Reveal((1, 1)),
        ]
    );
}

#[test]
fn flag_chord_stays_quiet_when_the_count_differs() {
    // The worked example: number 2, six untouched neighbours — no flags.
    let snap = example_snapshot();
    assert_eq!(left_click_calls(&snap, (1, 1), true), vec![EngineCall::Reveal((1, 1))]);
}

#[test]
fn flag_chord_disabled_issues_only_the_reveal() {
    let mut snap = blank_snapshot(3, 3);
    snap.cells.set(
        (1, 1),
        BoardCell { cell_type: CellType::Safe(2), cell_state: CellState::Revealed },
    );
    for q in [(0usize, 0usize), (1, 0), (2, 0), (0, 1), (0, 2), (1, 2)] {
        snap.cells.set(
            q,
            BoardCell { cell_type: CellType::Safe(1), cell_state: CellState::Revealed },
        );
    }
    assert_eq!(left_click_calls(&snap, (1, 1), false), vec![EngineCall::Reveal((1, 1))]);
}

#[test]
fn worked_example_counts_and_releases() {
    // A left release on the example board launches one chord operation:
    // every one of the eight neighbours is acquired once, no extra flag
    // call is issued, and completion releases all eight.
    let snap = example_snapshot();
    let mut g = game(true);
    g.update(
        Message::Cell(((1, 1), CellMessage::SelfPress(MouseButton::Left))),
        &snap,
    );
    let effect = g.update(
        Message::Cell(((1, 1), CellMessage::SelfRelease(MouseButton::Left))),
        &snap,
    );
    assert_eq!(effect, Effect::LaunchReveal((1, 1)));

    let calls = left_click_calls(&snap, (1, 1), true);
    assert_eq!(calls, vec![EngineCall::Reveal((1, 1))]);

    let token = g.launch_left((1, 1), &snap, handle());
    assert_eq!(g.pending_operations(), 1);
    for q in g.points() {
        let expected = if q == (1, 1) { 0 } else { 1 };
        assert_eq!(g.cell(q).revealing, expected, "counter at {:?}", q);
        assert_eq!(g.armed(q), q != (1, 1));
    }

    let chain = g.finish_op(token);
    assert!(!chain);
    assert_eq!(g.pending_operations(), 0);
    for q in g.points() {
        assert_eq!(g.cell(q).revealing, 0);
    }
}

#[test]
fn overlapping_operations_stack_their_counters() {
    let snap = example_snapshot();
    let mut g = game(false);
    let t1 = g.launch_left((1, 1), &snap, handle());
    let t2 = g.launch_left((1, 1), &snap, handle());
    assert_eq!(g.cell((0, 0)).revealing, 2);
    g.finish_op(t1);
    assert_eq!(g.cell((0, 0)).revealing, 1);
    assert!(g.armed((0, 0)));
    g.finish_op(t2);
    assert_eq!(g.cell((0, 0)).revealing, 0);
    assert!(!g.armed((0, 0)));
}

#[test]
fn restart_empties_the_registry_and_resets_counters() {
    let snap = example_snapshot();
    let mut g = game(false);
    let (h, _r) = AbortHandle::new_pair();
    let token = g.launch_left((1, 1), &snap, h.clone());
    g.register_plain(handle());
    assert_eq!(g.pending_operations(), 2);

    let effect = g.update(Message::Restart, &snap);
    assert_eq!(effect, Effect::Reinitialize);
    assert_eq!(g.pending_operations(), 0);
    assert!(h.is_aborted());
    for q in g.points() {
        assert_eq!(g.cell(q).revealing, 0);
        assert!(!g.cell(q).pressed && !g.cell(q).hovering && !g.cell(q).force);
    }

    // The cancelled operation's completion handler arrives late: the
    // token is gone, so nothing is released twice.
    let chain = g.finish_op(token);
    assert!(!chain);
    for q in g.points() {
        assert_eq!(g.cell(q).revealing, 0);
    }
}

#[test]
fn flag_operations_touch_no_counter() {
    let mut g = game(false);
    let token = g.register_plain(handle());
    assert_eq!(g.pending_operations(), 1);
    for q in g.points() {
        assert_eq!(g.cell(q).revealing, 0);
    }
    g.finish_op(token);
    assert_eq!(g.pending_operations(), 0);
}
