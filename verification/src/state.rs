//! The top-level application state: the settings menu and the running
//! session.  Settings messages edit the menu and reconfigure or rebuild
//! the session; board messages are forwarded to it.

use vstd::prelude::*;
use crate::game::{self, Effect, MinsweeperGame};
use crate::settings::{self, Settings, SettingsMenu};
use crate::snapshot::BoardState;
use crate::board::Point;
use crate::cell::Cell;

verus! {

/// A message addressed to the application.
#[derive(Clone, Copy, Debug, PartialEq, Eq)]
pub enum Message {
    Settings(settings::Message),
    Minsweeper(game::Message),
}

/// A session freshly built from `s`: it carries the settings' choices and
/// has no interaction recorded.
pub open spec fn spec_fresh_game(g: MinsweeperGame, s: Settings) -> bool {
    &&& g.spec_size() == s.size
    &&& g.spec_solver() == s.solver
    &&& g.spec_texture() == s.texture
    &&& g.spec_auto() == s.auto
    &&& g.spec_flag_chord() == s.flag_chord
    &&& g.spec_hover_chord() == s.hover_chord
    &&& !g.spec_autoing()
    &&& g.spec_registry().entries_seq().len() == 0
    &&& forall|p: Point|
        #[trigger] g.spec_size().in_bounds(p) ==> g.cell_at(p) == Cell::default_spec()
}

/// Builds a session from the settings.
pub fn make_game(settings: &Settings) -> (r: MinsweeperGame)
    ensures
        r.wf(),
        spec_fresh_game(r, *settings),
{
    proof {
        use_type_invariant(&settings.size);
    }
    MinsweeperGame::new(
        settings.size(),
        settings.solver(),
        settings.texture(),
        settings.auto(),
        settings.flag_chord(),
        settings.hover_chord(),
    )
}

/// The settings menu and the session it configures.
pub struct State {
    pub settings_menu: SettingsMenu,
    pub minsweeper: MinsweeperGame,
}

impl Default for State {
    /// Default settings wrapped in a fresh menu, and a session built from
    /// them.
    fn default() -> (r: State)
        ensures
            r.minsweeper.wf(),
            spec_fresh_game(r.minsweeper, r.settings_menu.settings),
            !r.settings_menu.custom_size_dialog,
    {
        let settings_menu = SettingsMenu::default();
        let minsweeper = make_game(settings_menu.settings());
        State { settings_menu, minsweeper }
    }
}

impl State {
    /// Routes one message.  Settings messages first update the menu; a
    /// size or solver change then rebuilds the session (the driver
    /// restarts the engine on `Reinitialize`), while theme, autoplay and
    /// convenience changes reconfigure it in place.  Board messages go to
    /// the session together with the snapshot the driver read.
    pub fn update(&mut self, message: Message, snap: &BoardState) -> (r: Effect)
        requires
            old(self).minsweeper.wf(),
            snap.wf(),
            message matches Message::Minsweeper(m) ==> snap.size == old(
                self,
            ).minsweeper.spec_size() && (m matches game::Message::Cell(pm) ==> old(
                self,
            ).minsweeper.spec_size().in_bounds(pm.0)),
        ensures
            final(self).minsweeper.wf(),
            message matches Message::Settings(e) ==> ({
                let menu1 = old(self).settings_menu.spec_update(e);
                &&& final(self).settings_menu == menu1
                &&& match e {
                    settings::Message::ChangeSize(_) | settings::Message::ChangeSolver(_) => r
                        == Effect::Reinitialize && spec_fresh_game(
                        final(self).minsweeper,
                        menu1.settings,
                    ),
                    settings::Message::ChangeTexture(t) => r == Effect::Nothing
                        && game::same_interaction(&final(self).minsweeper, &old(self).minsweeper)
                        && final(self).minsweeper.spec_texture() == t
                        && final(self).minsweeper.spec_auto() == old(self).minsweeper.spec_auto()
                        && final(self).minsweeper.spec_flag_chord() == old(
                        self,
                    ).minsweeper.spec_flag_chord() && final(self).minsweeper.spec_hover_chord()
                        == old(self).minsweeper.spec_hover_chord(),
                    settings::Message::Auto(_) | settings::Message::ChangeAutoSolver(_)
                        | settings::Message::ChangeAutoDelay(_) => r == Effect::Nothing
                        && game::same_interaction(&final(self).minsweeper, &old(self).minsweeper)
                        && final(self).minsweeper.spec_auto() == menu1.settings.auto
                        && final(self).minsweeper.spec_texture() == old(
                        self,
                    ).minsweeper.spec_texture() && final(self).minsweeper.spec_flag_chord() == old(
                        self,
                    ).minsweeper.spec_flag_chord() && final(self).minsweeper.spec_hover_chord()
                        == old(self).minsweeper.spec_hover_chord(),
                    settings::Message::FlagChord(v) => r == Effect::Nothing
                        && game::same_interaction(&final(self).minsweeper, &old(self).minsweeper)
                        && final(self).minsweeper.spec_flag_chord() == v,
                    settings::Message::HoverChord(v) => r == Effect::Nothing
                        && game::same_interaction(&final(self).minsweeper, &old(self).minsweeper)
                        && final(self).minsweeper.spec_hover_chord() == v,
                    _ => r == Effect::Nothing && final(self).minsweeper == old(self).minsweeper,
                }
            }),
            message matches Message::Minsweeper(m) ==> final(self).settings_menu == old(
                self,
            ).settings_menu && game::spec_update_rel(
                old(self).minsweeper,
                final(self).minsweeper,
                m,
                snap,
                r,
            ),
    {
        match message {
            Message::Settings(e) => {
                self.settings_menu.update(e);
                match e {
                    settings::Message::ChangeSize(_) | settings::Message::ChangeSolver(_) => {
                        self.minsweeper = make_game(self.settings_menu.settings());
                        Effect::Reinitialize
                    },
                    settings::Message::ChangeTexture(texture) => {
                        self.minsweeper.change_textures(texture);
                        Effect::Nothing
                    },
                    settings::Message::Auto(_) | settings::Message::ChangeAutoSolver(_)
                        | settings::Message::ChangeAutoDelay(_) => {
                        let auto = self.settings_menu.settings().auto();
                        self.minsweeper.set_auto_config(auto);
                        Effect::Nothing
                    },
                    settings::Message::FlagChord(value) => {
                        self.minsweeper.set_flag_chord(value);
                        Effect::Nothing
                    },
                    settings::Message::HoverChord(value) => {
                        self.minsweeper.set_hover_chord(value);
                        Effect::Nothing
                    },
                    _ => Effect::Nothing,
                }
            },
            Message::Minsweeper(m) => self.minsweeper.update(m, snap),
        }
    }
}

} // verus!
