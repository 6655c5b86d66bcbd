//! The session settings and the menu state that edits them.
//!
//! Persisting the settings to disk is the business of an outer shell; this
//! module owns the in-memory record and the exact effect of every menu
//! message on it.

use vstd::prelude::*;
use crate::board::{BoardSize, ConventionalSize};
use crate::texture::Texture;

verus! {

/// The closed set of solving strategies a session can adopt.
#[derive(Clone, Copy, Debug, PartialEq, Eq, Structural)]
pub enum KnownSolver {
    MiaSolver,
    SafeStart,
    ZeroStart,
}

impl Default for KnownSolver {
    fn default() -> (r: KnownSolver)
        ensures
            r == KnownSolver::MiaSolver,
    {
        KnownSolver::MiaSolver
    }
}

/// How the autoplay loop is configured.  A loop that is already running
/// keeps the values it started with; these fields are read at chain time.
#[derive(Clone, Copy, Debug, PartialEq, Eq, Structural)]
pub struct AutoplayConfig {
    pub enabled: bool,
    pub solver_override: Option<KnownSolver>,
    pub step_delay_ms: u64,
}

impl Default for AutoplayConfig {
    fn default() -> (r: AutoplayConfig)
        ensures
            r == (AutoplayConfig { enabled: false, solver_override: None, step_delay_ms: 50 }),
    {
        AutoplayConfig { enabled: false, solver_override: None, step_delay_ms: 50 }
    }
}

/// Everything a session is constructed from.
#[derive(Clone, Copy, Debug, PartialEq, Eq, Structural)]
pub struct Settings {
    pub size: BoardSize,
    pub texture: Texture,
    pub solver: KnownSolver,
    pub auto: AutoplayConfig,
    pub flag_chord: bool,
    pub hover_chord: bool,
}

impl Default for Settings {
    fn default() -> (r: Settings)
        ensures
            r.size.spec_width() == 9 && r.size.spec_height() == 9 && r.size.spec_mines() == 10,
            r.size.wf(),
            r.texture == Texture::Dark,
            r.solver == KnownSolver::MiaSolver,
            r.auto == (AutoplayConfig { enabled: false, solver_override: None, step_delay_ms: 50 }),
            !r.flag_chord,
            !r.hover_chord,
    {
        Settings {
            size: ConventionalSize::Beginner.size(),
            texture: Texture::Dark,
            solver: KnownSolver::MiaSolver,
            auto: AutoplayConfig { enabled: false, solver_override: None, step_delay_ms: 50 },
            flag_chord: false,
            hover_chord: false,
        }
    }
}

impl Settings {
    pub fn size(&self) -> (r: BoardSize)
        ensures
            r == self.size,
    {
        self.size
    }

    pub fn texture(&self) -> (r: Texture)
        ensures
            r == self.texture,
    {
        self.texture
    }

    pub fn solver(&self) -> (r: KnownSolver)
        ensures
            r == self.solver,
    {
        self.solver
    }

    pub fn auto(&self) -> (r: AutoplayConfig)
        ensures
            r == self.auto,
    {
        self.auto
    }

    pub fn flag_chord(&self) -> (r: bool)
        ensures
            r == self.flag_chord,
    {
        self.flag_chord
    }

    pub fn hover_chord(&self) -> (r: bool)
        ensures
            r == self.hover_chord,
    {
        self.hover_chord
    }
}

/// A message produced by the settings menu.
#[derive(Clone, Copy, Debug, PartialEq, Eq, Structural)]
pub enum Message {
    MenuLabel,
    ChangeSize(BoardSize),
    ChangeTexture(Texture),
    ChangeSolver(KnownSolver),
    CustomSizeDialog(bool),
    CustomSizeUpdate(usize, usize, usize),
    Auto(bool),
    ChangeAutoSolver(Option<KnownSolver>),
    ChangeAutoDelay(u64),
    FlagChord(bool),
    HoverChord(bool),
}

/// The settings menu: the settings themselves plus the state of the
/// custom-size dialog.
#[derive(Clone, Copy, Debug, PartialEq, Eq, Structural)]
pub struct SettingsMenu {
    pub settings: Settings,
    pub custom_size_dialog: bool,
    pub custom_width: usize,
    pub custom_height: usize,
    pub custom_mines: usize,
}

impl Default for SettingsMenu {
    fn default() -> (r: SettingsMenu)
        ensures
            !r.custom_size_dialog,
            r.custom_width == 10 && r.custom_height == 10 && r.custom_mines == 10,
            r.settings.size.wf(),
            r.settings.size.spec_width() == 9 && r.settings.size.spec_height() == 9
                && r.settings.size.spec_mines() == 10,
            r.settings.texture == Texture::Dark,
            r.settings.solver == KnownSolver::MiaSolver,
            r.settings.auto == (AutoplayConfig {
                enabled: false,
                solver_override: None,
                step_delay_ms: 50,
            }),
            !r.settings.flag_chord,
            !r.settings.hover_chord,
    {
        SettingsMenu::new(Settings::default())
    }
}

impl SettingsMenu {
    /// The menu state wrapping the given settings, dialog closed.
    pub open spec fn with_settings(settings: Settings) -> SettingsMenu {
        SettingsMenu {
            settings,
            custom_size_dialog: false,
            custom_width: 10,
            custom_height: 10,
            custom_mines: 10,
        }
    }

    /// Wraps settings restored by the shell (or defaults) in a fresh menu.
    pub fn new(settings: Settings) -> (r: SettingsMenu)
        ensures
            r == SettingsMenu::with_settings(settings),
    {
        SettingsMenu {
            settings,
            custom_size_dialog: false,
            custom_width: 10,
            custom_height: 10,
            custom_mines: 10,
        }
    }

    pub fn settings(&self) -> (r: &Settings)
        ensures
            *r == self.settings,
    {
        &self.settings
    }

    /// The menu state after `message`, leaving everything the message does
    /// not speak of unchanged.
    pub open spec fn spec_update(self, message: Message) -> SettingsMenu {
        match message {
            Message::MenuLabel => self,
            Message::ChangeSize(size) => SettingsMenu {
                custom_size_dialog: false,
                settings: Settings { size, ..self.settings },
                ..self
            },
            Message::ChangeTexture(texture) => SettingsMenu {
                settings: Settings { texture, ..self.settings },
                ..self
            },
            Message::ChangeSolver(solver) => SettingsMenu {
                settings: Settings { solver, ..self.settings },
                ..self
            },
            Message::CustomSizeDialog(value) => SettingsMenu { custom_size_dialog: value, ..self },
            Message::CustomSizeUpdate(width, height, mines) => SettingsMenu {
                custom_width: width,
                custom_height: height,
                custom_mines: mines,
                ..self
            },
            Message::Auto(enabled) => SettingsMenu {
                settings: Settings {
                    auto: AutoplayConfig { enabled, ..self.settings.auto },
                    ..self.settings
                },
                ..self
            },
            Message::ChangeAutoSolver(solver_override) => SettingsMenu {
                settings: Settings {
                    auto: AutoplayConfig { solver_override, ..self.settings.auto },
                    ..self.settings
                },
                ..self
            },
            Message::ChangeAutoDelay(step_delay_ms) => SettingsMenu {
                settings: Settings {
                    auto: AutoplayConfig { step_delay_ms, ..self.settings.auto },
                    ..self.settings
                },
                ..self
            },
            Message::FlagChord(value) => SettingsMenu {
                settings: Settings { flag_chord: value, ..self.settings },
                ..self
            },
            Message::HoverChord(value) => SettingsMenu {
                settings: Settings { hover_chord: value, ..self.settings },
                ..self
            },
        }
    }

    /// Applies one menu message.  The shell persists the settings
    /// afterwards; nothing here touches the disk.
    pub fn update(&mut self, message: Message)
        ensures
            *final(self) == old(self).spec_update(message),
    {
        match message {
            Message::MenuLabel => {},
            Message::ChangeSize(size) => {
                self.custom_size_dialog = false;
                self.settings.size = size;
            },
            Message::ChangeTexture(texture) => {
                self.settings.texture = texture;
            },
            Message::ChangeSolver(solver) => {
                self.settings.solver = solver;
            },
            Message::CustomSizeDialog(value) => {
                self.custom_size_dialog = value;
            },
            Message::CustomSizeUpdate(width, height, mines) => {
                self.custom_width = width;
                self.custom_height = height;
                self.custom_mines = mines;
            },
            Message::Auto(enabled) => {
                self.settings.auto.enabled = enabled;
            },
            Message::ChangeAutoSolver(solver_override) => {
                self.settings.auto.solver_override = solver_override;
            },
            Message::ChangeAutoDelay(step_delay_ms) => {
                self.settings.auto.step_delay_ms = step_delay_ms;
            },
            Message::FlagChord(value) => {
                self.settings.flag_chord = value;
            },
            Message::HoverChord(value) => {
                self.settings.hover_chord = value;
            },
        }
    }
}

} // verus!
