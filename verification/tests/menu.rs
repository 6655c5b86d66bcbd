use minsweeper_client::board::{BoardCell, BoardSize, CellState, CellType, GameStatus};
use minsweeper_client::game::Effect;
use minsweeper_client::grid::Grid;
use minsweeper_client::settings::{
    AutoplayConfig, KnownSolver, Message as SettingsMessage, Settings, SettingsMenu,
};
use minsweeper_client::snapshot::BoardState;
use minsweeper_client::state::{make_game, Message, State};
use minsweeper_client::texture::Texture;

fn snapshot_for(state: &State) -> BoardState {
    let size = state.minsweeper.size();
    BoardState {
        size,
        cells: Grid::new(
            size.width(),
            size.height(),
            BoardCell { cell_type: CellType::Unknown, cell_state: CellState::Unknown },
        ),
        remaining_mines: 1,
        status: GameStatus::Playing,
    }
}

#[test]
fn settings_default_is_a_beginner_board() {
    let s = Settings::default();
    assert_eq!(s.size().width(), 9);
    assert_eq!(s.size().height(), 9);
    assert_eq!(s.size().mines(), 10);
    assert_eq!(s.texture(), Texture::Dark);
    assert_eq!(s.solver(), KnownSolver::MiaSolver);
    assert!(!s.auto().enabled);
    assert_eq!(s.auto().step_delay_ms, 50);
    assert!(!s.flag_chord());
    assert!(!s.hover_chord());
}

#[test]
fn menu_messages_edit_exactly_their_setting() {
    let mut menu = SettingsMenu::default();
    menu.update(SettingsMessage::ChangeTexture(Texture::Gay));
    assert_eq!(menu.settings().texture(), Texture::Gay);

    menu.update(SettingsMessage::ChangeSolver(KnownSolver::ZeroStart));
    assert_eq!(menu.settings().solver(), KnownSolver::ZeroStart);
    assert_eq!(menu.settings().texture(), Texture::Gay);

    menu.update(SettingsMessage::FlagChord(true));
    assert!(menu.settings().flag_chord());
    menu.update(SettingsMessage::HoverChord(true));
    assert!(menu.settings().hover_chord());

    menu.update(SettingsMessage::Auto(true));
    assert!(menu.settings().auto().enabled);
    menu.update(SettingsMessage::ChangeAutoDelay(200));
    assert_eq!(menu.settings().auto().step_delay_ms, 200);
    menu.update(SettingsMessage::ChangeAutoSolver(Some(KnownSolver::SafeStart)));
    assert_eq!(menu.settings().auto().solver_override, Some(KnownSolver::SafeStart));
}

#[test]
fn changing_size_closes_the_dialog() {
    let mut menu = SettingsMenu::default();
    menu.update(SettingsMessage::CustomSizeDialog(true));
    assert!(menu.custom_size_dialog);
    menu.update(SettingsMessage::CustomSizeUpdate(12, 14, 20));
    assert_eq!(
        (menu.custom_width, menu.custom_height, menu.custom_mines),
        (12, 14, 20)
    );
    let size = BoardSize::new(12, 14, 20).unwrap();
    menu.update(SettingsMessage::ChangeSize(size));
    assert!(!menu.custom_size_dialog);
    assert_eq!(menu.settings().size(), size);
}

#[test]
fn make_game_adopts_the_settings() {
    let mut s = Settings::default();
    s.flag_chord = true;
    s.auto = AutoplayConfig { enabled: true, solver_override: None, step_delay_ms: 80 };
    let g = make_game(&s);
    assert_eq!(g.size(), s.size());
    assert_eq!(g.solver(), s.solver());
    assert_eq!(g.texture(), s.texture());
    assert_eq!(g.auto_config(), s.auto());
    assert!(!g.auto_running());
    assert_eq!(g.pending_operations(), 0);
}

#[test]
fn a_size_change_rebuilds_the_session() {
    let mut state = State::default();
    let snap = snapshot_for(&state);
    let size = BoardSize::new(5, 4, 3).unwrap();
    let effect = state.update(Message::Settings(SettingsMessage::ChangeSize(size)), &snap);
    assert_eq!(effect, Effect::Reinitialize);
    assert_eq!(state.minsweeper.size(), size);
    assert_eq!(state.minsweeper.pending_operations(), 0);
}

#[test]
fn a_solver_change_rebuilds_the_session() {
    let mut state = State::default();
    let snap = snapshot_for(&state);
    let effect = state.update(
        Message::Settings(SettingsMessage::ChangeSolver(KnownSolver::SafeStart)),
        &snap,
    );
    assert_eq!(effect, Effect::Reinitialize);
    assert_eq!(state.minsweeper.solver(), KnownSolver::SafeStart);
}

#[test]
fn a_texture_change_reconfigures_in_place() {
    let mut state = State::default();
    let snap = snapshot_for(&state);
    let effect = state.update(
        Message::Settings(SettingsMessage::ChangeTexture(Texture::Light)),
        &snap,
    );
    assert_eq!(effect, Effect::Nothing);
    assert_eq!(state.minsweeper.texture(), Texture::Light);
}

#[test]
fn convenience_toggles_reach_the_session() {
    let mut state = State::default();
    let snap = snapshot_for(&state);
    state.update(Message::Settings(SettingsMessage::FlagChord(true)), &snap);
    state.update(Message::Settings(SettingsMessage::HoverChord(true)), &snap);
    state.update(Message::Settings(SettingsMessage::Auto(true)), &snap);
    assert!(state.minsweeper.auto_config().enabled);
}

#[test]
fn solver_default_is_the_mia_solver() {
    assert_eq!(KnownSolver::default(), KnownSolver::MiaSolver);
    assert_eq!(AutoplayConfig::default().step_delay_ms, 50);
}
