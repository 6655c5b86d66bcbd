use futures_util::future::AbortHandle;
use minsweeper_client::auto::{auto_transition, AutoPhase, EngineCall, MoveAction, MoveData};
use minsweeper_client::board::{BoardCell, BoardSize, CellState, CellType, GameStatus};
use minsweeper_client::cell::Operation;
use minsweeper_client::game::MinsweeperGame;
use minsweeper_client::grid::Grid;
use minsweeper_client::settings::{AutoplayConfig, KnownSolver};
use minsweeper_client::snapshot::BoardState;
use minsweeper_client::texture::Texture;

fn handle() -> AbortHandle {
    AbortHandle::new_pair().0
}

fn game(auto_enabled: bool) -> MinsweeperGame {
    MinsweeperGame::new(
        BoardSize::new(3, 3, 1).unwrap(),
        KnownSolver::MiaSolver,
        Texture::Dark,
        AutoplayConfig { enabled: auto_enabled, ..AutoplayConfig::default() },
        false,
        false,
    )
}

fn snapshot() -> BoardState {
    BoardState {
        size: BoardSize::new(3, 3, 1).unwrap(),
        cells: Grid::new(
            3,
            3,
            BoardCell { cell_type: CellType::Unknown, cell_state: CellState::Unknown },
        ),
        remaining_mines: 1,
        status: GameStatus::Playing,
    }
}

#[test]
fn no_move_ends_the_loop_with_nothing_scheduled() {
    let (next, calls) = auto_transition(AutoPhase::Start, &None);
    assert_eq!(next, AutoPhase::End);
    assert!(calls.is_empty());
    let (next, calls) = auto_transition(AutoPhase::SolveNext, &None);
    assert_eq!(next, AutoPhase::End);
    assert!(calls.is_empty());
}

#[test]
fn end_is_absorbing() {
    let mv = MoveData {
        actions: vec![MoveAction { point: (0, 0), operation: Operation::Reveal }],
    };
    let (next, calls) = auto_transition(AutoPhase::End, &Some(mv));
    assert_eq!(next, AutoPhase::End);
    assert!(calls.is_empty());
}

#[test]
fn a_move_is_applied_in_order_without_the_flag_chord_pre_pass() {
    let mv = MoveData {
        actions: vec![
            MoveAction { point: (0, 0), operation: Operation::Reveal },
            MoveAction { point: (1, 1), operation: Operation::Chord },
            MoveAction { point: (2, 2), operation: Operation::Flag },
        ],
    };
    let (next, calls) = auto_transition(AutoPhase::Start, &Some(mv));
    assert_eq!(next, AutoPhase::SolveNext);
    assert_eq!(
        calls,
        vec![
            EngineCall::Reveal((0, 0)),
            EngineCall::Reveal((1, 1)),
            EngineCall::ToggleFlag((2, 2)),
        ]
    );
}

#[test]
fn only_one_loop_runs_per_session() {
    let mut g = game(true);
    assert!(!g.auto_running());
    assert!(g.auto_begin());
    assert!(g.auto_running());
    // A second chain-start while the loop runs is a no-op.
    assert!(!g.auto_begin());
    assert!(g.auto_running());
}

#[test]
fn ending_the_loop_clears_the_running_flag() {
    let mut g = game(true);
    assert!(g.auto_begin());
    let token = g.register_plain(handle());
    g.auto_end(token);
    assert!(!g.auto_running());
    assert_eq!(g.pending_operations(), 0);
    // A new loop may now be chained.
    assert!(g.auto_begin());
}

#[test]
fn completion_chains_only_when_enabled_and_not_running() {
    let snap = snapshot();
    let mut enabled = game(true);
    let token = enabled.launch_left((0, 0), &snap, handle());
    assert!(enabled.finish_op(token));

    let mut disabled = game(false);
    let token = disabled.launch_left((0, 0), &snap, handle());
    assert!(!disabled.finish_op(token));

    let mut running = game(true);
    running.auto_begin();
    let token = running.launch_left((0, 0), &snap, handle());
    assert!(!running.finish_op(token));
}

#[test]
fn a_restart_stops_the_loop_flag_too() {
    let mut g = game(true);
    g.auto_begin();
    g.restart();
    assert!(!g.auto_running());
}
