use minsweeper_client::board::{BoardCell, BoardSize, CellState, CellType, GameStatus, Point};
use minsweeper_client::cell::{Cell, Message as CellMessage, MouseButton, Operation};
use minsweeper_client::game::{Effect, Message, MinsweeperGame};
use minsweeper_client::grid::Grid;
use minsweeper_client::settings::{AutoplayConfig, KnownSolver};
use minsweeper_client::snapshot::BoardState;
use minsweeper_client::texture::Texture;

fn blank_snapshot(width: usize, height: usize) -> BoardState {
    let size = BoardSize::new(width, height, 1).unwrap();
    BoardState {
        size,
        cells: Grid::new(
            width,
            height,
            BoardCell { cell_type: CellType::Unknown, cell_state: CellState::Unknown },
        ),
        remaining_mines: 1,
        status: GameStatus::Playing,
    }
}

fn game(width: usize, height: usize, flag_chord: bool, hover_chord: bool) -> MinsweeperGame {
    MinsweeperGame::new(
        BoardSize::new(width, height, 1).unwrap(),
        KnownSolver::MiaSolver,
        Texture::Dark,
        AutoplayConfig::default(),
        flag_chord,
        hover_chord,
    )
}

fn reveal_snapshot_with_number(p: Point, n: u8) -> BoardState {
    let mut snap = blank_snapshot(3, 3);
    snap.cells.set(
        p,
        BoardCell { cell_type: CellType::Safe(n), cell_state: CellState::Revealed },
    );
    snap
}

#[test]
fn press_and_release_toggle_the_pressed_flag() {
    let mut g = game(3, 3, false, false);
    let snap = blank_snapshot(3, 3);
    let e = g.update_cell((1, 1), CellMessage::Press(MouseButton::Left), &snap);
    assert_eq!(e, Effect::Nothing);
    assert!(g.cell((1, 1)).pressed);
    let e = g.update_cell((1, 1), CellMessage::Release(MouseButton::Left), &snap);
    assert_eq!(e, Effect::Nothing);
    assert!(!g.cell((1, 1)).pressed);
}

#[test]
fn right_press_launches_a_flag_and_clears_pressed() {
    let mut g = game(3, 3, false, false);
    let snap = blank_snapshot(3, 3);
    let e = g.update_cell((2, 0), CellMessage::SelfPress(MouseButton::Right), &snap);
    assert_eq!(e, Effect::LaunchFlag((2, 0)));
    assert!(!g.cell((2, 0)).pressed);
}

#[test]
fn left_release_on_a_pressed_cell_launches_a_reveal() {
    let mut g = game(3, 3, false, false);
    let snap = blank_snapshot(3, 3);
    g.update_cell((0, 2), CellMessage::SelfPress(MouseButton::Left), &snap);
    let e = g.update_cell((0, 2), CellMessage::SelfRelease(MouseButton::Left), &snap);
    assert_eq!(e, Effect::LaunchReveal((0, 2)));
}

#[test]
fn left_release_without_a_press_is_a_no_op() {
    let mut g = game(3, 3, false, false);
    let snap = blank_snapshot(3, 3);
    let e = g.update_cell((0, 2), CellMessage::SelfRelease(MouseButton::Left), &snap);
    assert_eq!(e, Effect::Nothing);
}

#[test]
fn hover_chord_enter_launches_like_a_left_release() {
    let snap = reveal_snapshot_with_number((1, 1), 2);
    let mut with_hover = game(3, 3, false, true);
    let enter = with_hover.update_cell((1, 1), CellMessage::Enter, &snap);
    assert_eq!(enter, Effect::LaunchReveal((1, 1)));

    let mut clicked = game(3, 3, false, true);
    clicked.update_cell((1, 1), CellMessage::SelfPress(MouseButton::Left), &snap);
    let release = clicked.update_cell((1, 1), CellMessage::SelfRelease(MouseButton::Left), &snap);
    assert_eq!(enter, release);
}

#[test]
fn hover_without_the_convenience_never_launches() {
    let snap = reveal_snapshot_with_number((1, 1), 2);
    let mut g = game(3, 3, false, false);
    let e = g.update_cell((1, 1), CellMessage::Enter, &snap);
    assert_eq!(e, Effect::Nothing);
    assert!(g.cell((1, 1)).hovering);
    let e = g.update_cell((1, 1), CellMessage::Exit, &snap);
    assert_eq!(e, Effect::Nothing);
    assert!(!g.cell((1, 1)).hovering);
}

#[test]
fn hover_chord_ignores_a_zero_cell() {
    let snap = reveal_snapshot_with_number((1, 1), 0);
    let mut g = game(3, 3, false, true);
    let e = g.update_cell((1, 1), CellMessage::Enter, &snap);
    assert_eq!(e, Effect::Nothing);
}

#[test]
fn pressing_a_numbered_cell_forces_exactly_its_neighbours() {
    let snap = reveal_snapshot_with_number((1, 1), 2);
    let mut g = game(3, 3, false, false);
    g.update_cell((1, 1), CellMessage::Press(MouseButton::Left), &snap);
    g.update_cell((1, 1), CellMessage::Enter, &snap);
    // pressed && hovering: the cell is down, so all 8 neighbours are forced.
    for q in g.points() {
        if q == (1, 1) {
            assert!(!g.cell(q).force);
        } else {
            assert!(g.cell(q).force, "neighbour {:?} should be forced", q);
        }
    }
    assert!(g.armed((0, 0)));
    // Exiting puts the target up again and clears the same neighbours.
    g.update_cell((1, 1), CellMessage::Exit, &snap);
    for q in g.points() {
        assert!(!g.cell(q).force, "cell {:?} should no longer be forced", q);
    }
}

#[test]
fn force_propagation_reaches_only_direct_neighbours() {
    let snap = {
        let mut s = blank_snapshot(5, 5);
        s.cells.set(
            (2, 2),
            BoardCell { cell_type: CellType::Safe(1), cell_state: CellState::Revealed },
        );
        s
    };
    let mut g = game(5, 5, false, false);
    g.update_cell((2, 2), CellMessage::Press(MouseButton::Left), &snap);
    g.update_cell((2, 2), CellMessage::Enter, &snap);
    assert!(g.cell((1, 1)).force);
    assert!(g.cell((3, 3)).force);
    assert!(!g.cell((0, 0)).force);
    assert!(!g.cell((4, 2)).force);
    assert!(!g.cell((2, 4)).force);
}

#[test]
fn gestures_are_gated_while_the_game_is_not_in_progress() {
    let mut g = game(3, 3, false, false);
    let mut snap = blank_snapshot(3, 3);
    snap.status = GameStatus::Never;
    let e = g.update(Message::Cell(((1, 1), CellMessage::SelfPress(MouseButton::Right))), &snap);
    assert_eq!(e, Effect::Nothing);
    snap.status = GameStatus::Playing;
    let e = g.update(Message::Cell(((1, 1), CellMessage::SelfPress(MouseButton::Right))), &snap);
    assert_eq!(e, Effect::LaunchFlag((1, 1)));
}

#[test]
fn broadcast_release_clears_every_pressed_flag() {
    let mut g = game(3, 3, false, false);
    let snap = blank_snapshot(3, 3);
    g.update_cell((0, 0), CellMessage::Press(MouseButton::Left), &snap);
    g.update_cell((2, 2), CellMessage::Press(MouseButton::Left), &snap);
    let e = g.update(Message::MouseRelease(MouseButton::Left), &snap);
    assert_eq!(e, Effect::Nothing);
    for q in g.points() {
        assert!(!g.cell(q).pressed);
    }
}

#[test]
fn repaint_changes_nothing() {
    let mut g = game(3, 3, false, false);
    let snap = blank_snapshot(3, 3);
    let e = g.update(Message::Repaint, &snap);
    assert_eq!(e, Effect::Nothing);
    assert_eq!(g.pending_operations(), 0);
}

#[test]
fn to_action_translates_only_the_two_click_gestures() {
    assert_eq!(
        CellMessage::SelfPress(MouseButton::Right).to_action(),
        Some(vec![Operation::Flag])
    );
    assert_eq!(
        CellMessage::SelfRelease(MouseButton::Left).to_action(),
        Some(vec![Operation::Reveal, Operation::Chord])
    );
    assert_eq!(CellMessage::SelfPress(MouseButton::Left).to_action(), None);
    assert_eq!(CellMessage::Enter.to_action(), None);
}

#[test]
fn click_predicates_match_their_gestures() {
    assert!(CellMessage::SelfRelease(MouseButton::Left).is_left_click());
    assert!(!CellMessage::SelfRelease(MouseButton::Right).is_left_click());
    assert!(CellMessage::SelfPress(MouseButton::Right).is_right_click());
    assert!(!CellMessage::Press(MouseButton::Right).is_right_click());
}

#[test]
fn down_and_armed_follow_their_definitions() {
    let mut c = Cell::new();
    assert!(!c.is_down() && !c.is_armed());
    c.pressed = true;
    assert!(!c.is_down());
    c.hovering = true;
    assert!(c.is_down() && c.is_armed());
    let mut c = Cell::new();
    c.revealing = 1;
    assert!(c.is_down());
    let mut c = Cell::new();
    c.force = true;
    assert!(!c.is_down() && c.is_armed());
}
