//! The session orchestrator: translates gestures into engine operations,
//! keeps the per-cell reveal counters in step with the registry of
//! outstanding operations, and owns the autoplay running flag.
//!
//! The central invariant, part of `wf`, is that every cell's reveal
//! counter equals the combined hold of all outstanding operations on that
//! cell.  Launching an operation acquires its reveal set and registers it;
//! finishing (normally or after cancellation) releases exactly what was
//! acquired; a restart cancels everything and resets every counter.  In
//! particular, whenever the registry is empty every counter is zero.

use vstd::prelude::*;
use crate::auto::EngineCall;
use crate::board::{BoardSize, CellType, GameStatus, Point};
use crate::cell::{Cell, MouseButton};
use crate::cell;
use crate::grid::Grid;
use crate::registry::{ActionRegistry, occ, lemma_load_push, lemma_load_remove};
use crate::settings::{AutoplayConfig, KnownSolver};
use crate::snapshot::BoardState;
use crate::texture::Texture;

verus! {

/// What the driver must do after a state transition: nothing, spawn a
/// cancellable reveal/chord operation on a cell, spawn a cancellable flag
/// toggle on a cell, or reinitialise the engine with the session's solver.
#[derive(Clone, Copy, Debug, PartialEq, Eq)]
pub enum Effect {
    Nothing,
    LaunchReveal(Point),
    LaunchFlag(Point),
    Reinitialize,
}

/// A message addressed to the session.
#[derive(Clone, Copy, Debug, PartialEq, Eq)]
pub enum Message {
    Restart,
    Cell((Point, cell::Message)),
    MouseRelease(MouseButton),
    Repaint,
}

/// The set of cells whose reveal counters a reveal operation on `p`
/// acquires: the neighbours of a revealed numbered cell (a chord), the
/// cell itself otherwise.
pub open spec fn spec_reveal_set(snap: &BoardState, p: Point) -> Seq<Point> {
    match snap.at(p).cell_type {
        CellType::Safe(_) => snap.size.neighbours_seq(p),
        _ => seq![p],
    }
}

/// Computes the reveal set of `p` from the snapshot.
pub fn reveal_set(snap: &BoardState, p: Point) -> (r: Vec<Point>)
    requires
        snap.wf(),
        snap.size.in_bounds(p),
    ensures
        r@ == spec_reveal_set(snap, p),
        r@.no_duplicates(),
        forall|j: int| 0 <= j < r@.len() ==> snap.size.in_bounds(#[trigger] r@[j]),
{
    proof {
        snap.size.lemma_neighbours(p);
        assert forall|j: int|
            0 <= j < snap.size.neighbours_seq(p).len() implies snap.size.in_bounds(
            #[trigger] snap.size.neighbours_seq(p)[j]) by {
            assert(snap.size.neighbours_seq(p).contains(snap.size.neighbours_seq(p)[j]));
        }
    }
    let is_chord = matches!(snap.cells.get(p).cell_type, CellType::Safe(_));
    if is_chord {
        snap.size.neighbours(p)
    } else {
        let mut v: Vec<Point> = Vec::new();
        v.push(p);
        proof {
            assert(v@ =~= seq![p]);
        }
        v
    }
}

/// Whether the flag-chord convenience fires: it is enabled, the cell is a
/// numbered cell, and its number equals the count of its still-unknown
/// neighbours.
pub open spec fn spec_flag_chord_applies(snap: &BoardState, p: Point, flag_chord: bool) -> bool {
    &&& flag_chord
    &&& match snap.at(p).cell_type {
        CellType::Safe(n) => snap.spec_unknown_neighbours(p).len() == n,
        _ => false,
    }
}

/// The ordered engine calls of a manual reveal on `p`: when the
/// flag-chord convenience fires, one flag toggle per still-unknown
/// neighbour (in neighbour order) followed by the reveal; just the reveal
/// otherwise.
pub open spec fn spec_left_click_calls(snap: &BoardState, p: Point, flag_chord: bool) -> Seq<
    EngineCall,
> {
    if spec_flag_chord_applies(snap, p, flag_chord) {
        snap.spec_unknown_neighbours(p).map_values(|q: Point| EngineCall::ToggleFlag(q)) + seq![
            EngineCall::Reveal(p),
        ]
    } else {
        seq![EngineCall::Reveal(p)]
    }
}

/// Computes the ordered engine calls of a manual reveal on `p` from a
/// fresh snapshot.  The driver performs them in order, each awaited
/// before the next.
pub fn left_click_calls(snap: &BoardState, point: Point, flag_chord: bool) -> (r: Vec<EngineCall>)
    requires
        snap.wf(),
        snap.size.in_bounds(point),
    ensures
        r@ == spec_left_click_calls(snap, point, flag_chord),
{
    let mut r: Vec<EngineCall> = Vec::new();
    if flag_chord {
        if let CellType::Safe(n) = snap.cells.get(point).cell_type {
            let unknowns = snap.unknown_neighbours(point);
            if unknowns.len() == n as usize {
                let ghost target = snap.spec_unknown_neighbours(point).map_values(
                    |q: Point| EngineCall::ToggleFlag(q),
                );
                let mut i: usize = 0;
                proof {
                    assert(r@ =~= target.take(0));
                }
                while i < unknowns.len()
                    invariant
                        i <= unknowns@.len(),
                        unknowns@ == snap.spec_unknown_neighbours(point),
                        target == snap.spec_unknown_neighbours(point).map_values(
                            |q: Point| EngineCall::ToggleFlag(q),
                        ),
                        r@ == target.take(i as int),
                    decreases unknowns@.len() - i,
                {
                    r.push(EngineCall::ToggleFlag(unknowns[i]));
                    proof {
                        assert(r@ =~= target.take(i as int + 1));
                    }
                    i = i + 1;
                }
                proof {
                    assert(target.take(target.len() as int) =~= target);
                }
            }
        }
    }
    r.push(EngineCall::Reveal(point));
    proof {
        if spec_flag_chord_applies(snap, point, flag_chord) {
            assert(r@ =~= spec_left_click_calls(snap, point, flag_chord));
        } else {
            assert(r@ =~= seq![EngineCall::Reveal(point)]);
        }
    }
    r
}

/// The target cell after a gesture message, before force propagation.
/// A right press clears the pressed flag at once (flagging shows no
/// latency indicator); a left release on a pressed cell leaves the cell
/// as it is, since the launch it triggers returns early.
pub open spec fn spec_cell_after(c: Cell, msg: cell::Message) -> Cell {
    match msg {
        cell::Message::Press(_) => Cell { pressed: true, ..c },
        cell::Message::Release(_) => Cell { pressed: false, ..c },
        cell::Message::SelfPress(b) => Cell { pressed: !(b is Right), ..c },
        cell::Message::SelfRelease(b) => if c.pressed && b is Left {
            c
        } else {
            Cell { pressed: false, ..c }
        },
        cell::Message::ForceArmed(v) => Cell { force: v, ..c },
        cell::Message::Enter => Cell { hovering: true, ..c },
        cell::Message::Exit => Cell { hovering: false, ..c },
    }
}

/// Which operation, if any, a gesture on `point` launches: a right press
/// launches a flag toggle; a left release on a pressed cell launches a
/// reveal; entering a revealed numbered cell launches a reveal when the
/// hover-chord convenience is enabled; nothing else launches.
pub open spec fn spec_gesture_effect(
    c: Cell,
    msg: cell::Message,
    snap: &BoardState,
    point: Point,
    hover_chord: bool,
) -> Effect {
    match msg {
        cell::Message::SelfPress(b) => if b is Right {
            Effect::LaunchFlag(point)
        } else {
            Effect::Nothing
        },
        cell::Message::SelfRelease(b) => if c.pressed && b is Left {
            Effect::LaunchReveal(point)
        } else {
            Effect::Nothing
        },
        cell::Message::Enter => if hover_chord && match snap.at(point).cell_type {
            CellType::Safe(n) => n > 0,
            _ => false,
        } {
            Effect::LaunchReveal(point)
        } else {
            Effect::Nothing
        },
        _ => Effect::Nothing,
    }
}

/// Whether the gesture propagates the target's armed state to its
/// neighbours: only gestures that did not launch an operation, on a
/// revealed numbered cell, while the cell is held or the message is a
/// press/release transition.
pub open spec fn spec_prop_runs(
    c_after: Cell,
    msg: cell::Message,
    snap: &BoardState,
    point: Point,
    effect: Effect,
) -> bool {
    &&& effect == Effect::Nothing
    &&& (msg is Press || msg is Release || msg is SelfPress || msg is SelfRelease || msg is Enter
        || msg is Exit)
    &&& (c_after.pressed || msg is Press || msg is Release || msg is SelfPress
        || msg is SelfRelease)
    &&& snap.at(point).cell_type is Safe
}

/// The cell at `q` after a gesture message addressed to `point` has been
/// handled: the target is transformed, the direct neighbours take the
/// target's new down state as their forced-armed flag when propagation
/// runs, and every other cell is untouched.
pub open spec fn spec_cell_result(
    cells: Seq<Seq<Cell>>,
    size: BoardSize,
    snap: &BoardState,
    point: Point,
    msg: cell::Message,
    hover_chord: bool,
    q: Point,
) -> Cell {
    let c0 = cells[point.0 as int][point.1 as int];
    let c1 = spec_cell_after(c0, msg);
    let effect = spec_gesture_effect(c0, msg, snap, point, hover_chord);
    if q == point {
        c1
    } else if spec_prop_runs(c1, msg, snap, point, effect) && size.is_neighbour(point, q) {
        Cell { force: c1.spec_is_down(), ..cells[q.0 as int][q.1 as int] }
    } else {
        cells[q.0 as int][q.1 as int]
    }
}

/// The whole grid after one gesture message, pointwise.
pub open spec fn spec_apply_gesture(
    cells: Seq<Seq<Cell>>,
    size: BoardSize,
    snap: &BoardState,
    point: Point,
    msg: cell::Message,
    hover_chord: bool,
) -> Seq<Seq<Cell>> {
    Seq::new(
        cells.len(),
        |x: int|
            Seq::new(
                cells[x].len(),
                |y: int|
                    spec_cell_result(
                        cells,
                        size,
                        snap,
                        point,
                        msg,
                        hover_chord,
                        (x as usize, y as usize),
                    ),
            ),
    )
}

/// A broadcast release processes every point of the board in row-major
/// order, folding one gesture application per point.
pub open spec fn spec_release_fold(
    cells: Seq<Seq<Cell>>,
    size: BoardSize,
    snap: &BoardState,
    button: MouseButton,
    pts: Seq<Point>,
    hover_chord: bool,
) -> Seq<Seq<Cell>>
    decreases pts.len(),
{
    if pts.len() == 0 {
        cells
    } else {
        spec_apply_gesture(
            spec_release_fold(cells, size, snap, button, pts.drop_last(), hover_chord),
            size,
            snap,
            pts.last(),
            cell::Message::Release(button),
            hover_chord,
        )
    }
}


/// All points of the board in row-major order; the point `(x, y)` sits at
/// index `y * width + x`.
pub open spec fn spec_points(size: BoardSize) -> Seq<Point> {
    Seq::new(
        ((size.spec_width() as int) * (size.spec_height() as int)) as nat,
        |i: int|
            (
                ((i % (size.spec_width() as int)) as usize),
                ((i / (size.spec_width() as int)) as usize),
            ),
    )
}

/// Everything acquired by outstanding operations is a duplicate-free set
/// of board cells.
pub open spec fn acquired_ok(size: BoardSize, a: Seq<Point>) -> bool {
    &&& a.no_duplicates()
    &&& forall|j: int| 0 <= j < a.len() ==> size.in_bounds(#[trigger] a[j])
}


/// The parts of the session that gestures and operations act on are the
/// same in `a` and `b`.
pub open spec fn same_interaction(a: &MinsweeperGame, b: &MinsweeperGame) -> bool {
    &&& a.spec_size() == b.spec_size()
    &&& a.spec_cells() == b.spec_cells()
    &&& a.spec_registry() == b.spec_registry()
    &&& a.spec_autoing() == b.spec_autoing()
}

/// The session's configuration (solver, theme, conveniences, autoplay
/// configuration) is the same in `a` and `b`.
pub open spec fn same_config(a: &MinsweeperGame, b: &MinsweeperGame) -> bool {
    &&& a.spec_solver() == b.spec_solver()
    &&& a.spec_texture() == b.spec_texture()
    &&& a.spec_auto() == b.spec_auto()
    &&& a.spec_flag_chord() == b.spec_flag_chord()
    &&& a.spec_hover_chord() == b.spec_hover_chord()
}

/// How one `update` call relates the session before (`pre`) and after
/// (`post`): which effect it returns and what it does to cells, registry
/// and the autoplay flag, for each kind of message.
pub open spec fn spec_update_rel(
    pre: MinsweeperGame,
    post: MinsweeperGame,
    message: Message,
    snap: &BoardState,
    r: Effect,
) -> bool {
    &&& post.spec_size() == pre.spec_size()
    &&& same_config(&post, &pre)
    &&& (message == Message::Repaint ==> post == pre && r == Effect::Nothing)
    &&& (message == Message::Restart ==> r == Effect::Reinitialize
        && post.spec_registry().entries_seq().len() == 0 && !post.spec_autoing() && (forall|
        q: Point,
    |
        #[trigger] post.spec_size().in_bounds(q) ==> post.cell_at(q) == Cell::default_spec()))
    &&& (message matches Message::Cell(pm) ==> (if snap.status != GameStatus::Playing {
        post == pre && r == Effect::Nothing
    } else {
        &&& r == spec_gesture_effect(pre.cell_at(pm.0), pm.1, snap, pm.0, pre.spec_hover_chord())
        &&& post.spec_cells()@ == spec_apply_gesture(
            pre.spec_cells()@,
            pre.spec_size(),
            snap,
            pm.0,
            pm.1,
            pre.spec_hover_chord(),
        )
        &&& post.spec_registry() == pre.spec_registry()
        &&& post.spec_autoing() == pre.spec_autoing()
    }))
    &&& (message matches Message::MouseRelease(b) ==> ({
        &&& r == Effect::Nothing
        &&& post.spec_cells()@ == spec_release_fold(
            pre.spec_cells()@,
            pre.spec_size(),
            snap,
            b,
            spec_points(pre.spec_size()),
            pre.spec_hover_chord(),
        )
        &&& post.spec_registry() == pre.spec_registry()
        &&& post.spec_autoing() == pre.spec_autoing()
    }))
}

/// One interactive session: the board geometry, the chosen solver and
/// theme, the convenience toggles, the autoplay configuration, the
/// per-cell interaction state, the registry of outstanding operations and
/// the autoplay running flag.
pub struct MinsweeperGame {
    size: BoardSize,
    solver: KnownSolver,
    texture: Texture,
    auto: AutoplayConfig,
    flag_chord: bool,
    hover_chord: bool,
    cells: Grid<Cell>,
    registry: ActionRegistry,
    autoing: bool,
}

impl MinsweeperGame {
    pub closed spec fn spec_size(&self) -> BoardSize {
        self.size
    }

    pub closed spec fn spec_solver(&self) -> KnownSolver {
        self.solver
    }

    pub closed spec fn spec_texture(&self) -> Texture {
        self.texture
    }

    pub closed spec fn spec_auto(&self) -> AutoplayConfig {
        self.auto
    }

    pub closed spec fn spec_flag_chord(&self) -> bool {
        self.flag_chord
    }

    pub closed spec fn spec_hover_chord(&self) -> bool {
        self.hover_chord
    }

    pub closed spec fn spec_cells(&self) -> Grid<Cell> {
        self.cells
    }

    pub closed spec fn spec_registry(&self) -> ActionRegistry {
        self.registry
    }

    pub closed spec fn spec_autoing(&self) -> bool {
        self.autoing
    }

    pub open spec fn cell_at(&self, p: Point) -> Cell {
        self.spec_cells().spec_at(p)
    }

    /// The session invariant.  Besides the dimensions and the registry's
    /// own invariant, it states the pairing guarantee: every cell's reveal
    /// counter equals the combined hold of the outstanding operations on
    /// that cell.
    pub open spec fn wf(&self) -> bool {
        &&& self.spec_size().wf()
        &&& self.spec_cells().wf()
        &&& self.spec_cells().spec_width() == self.spec_size().spec_width()
        &&& self.spec_cells().spec_height() == self.spec_size().spec_height()
        &&& self.spec_registry().wf()
        &&& forall|p: Point|
            #[trigger] self.spec_size().in_bounds(p) ==> self.cell_at(p).revealing
                == self.spec_registry().spec_load(p)
        &&& forall|i: int|
            0 <= i < self.spec_registry().entries_seq().len() ==> acquired_ok(
                self.spec_size(),
                (#[trigger] self.spec_registry().entries_seq()[i]).acquired@,
            )
    }

    /// A fresh session: all counters zero, no outstanding operation, no
    /// autoplay loop running.
    pub fn new(
        size: BoardSize,
        solver: KnownSolver,
        texture: Texture,
        auto: AutoplayConfig,
        flag_chord: bool,
        hover_chord: bool,
    ) -> (r: MinsweeperGame)
        requires
            size.wf(),
        ensures
            r.wf(),
            r.spec_size() == size,
            r.spec_solver() == solver,
            r.spec_texture() == texture,
            r.spec_auto() == auto,
            r.spec_flag_chord() == flag_chord,
            r.spec_hover_chord() == hover_chord,
            !r.spec_autoing(),
            r.spec_registry().entries_seq().len() == 0,
            forall|p: Point|
                size.in_bounds(p) ==> #[trigger] r.cell_at(p) == Cell::default_spec(),
    {
        let cells = Grid::new(size.width(), size.height(), Cell::new());
        let r = MinsweeperGame {
            size,
            solver,
            texture,
            auto,
            flag_chord,
            hover_chord,
            cells,
            registry: ActionRegistry::new(),
            autoing: false,
        };
        r
    }

    pub fn size(&self) -> (r: BoardSize)
        ensures
            r == self.spec_size(),
    {
        self.size
    }

    pub fn solver(&self) -> (r: KnownSolver)
        ensures
            r == self.spec_solver(),
    {
        self.solver
    }

    pub fn texture(&self) -> (r: Texture)
        ensures
            r == self.spec_texture(),
    {
        self.texture
    }

    pub fn auto_config(&self) -> (r: AutoplayConfig)
        ensures
            r == self.spec_auto(),
    {
        self.auto
    }

    pub fn flag_chord(&self) -> (r: bool)
        ensures
            r == self.spec_flag_chord(),
    {
        self.flag_chord
    }

    pub fn hover_chord(&self) -> (r: bool)
        ensures
            r == self.spec_hover_chord(),
    {
        self.hover_chord
    }

    /// Whether an autoplay loop is currently running for this session.
    pub fn auto_running(&self) -> (r: bool)
        ensures
            r == self.spec_autoing(),
    {
        self.autoing
    }

    /// How many operations are currently outstanding.
    pub fn pending_operations(&self) -> (r: usize)
        ensures
            r == self.spec_registry().entries_seq().len(),
    {
        self.registry.len()
    }

    /// Whether the operation registered under `token` is still
    /// outstanding.
    pub fn operation_pending(&self, token: u64) -> (r: bool)
        ensures
            r == self.spec_registry().spec_contains(token),
    {
        self.registry.contains(token)
    }

    /// The interaction state of one cell.
    pub fn cell(&self, p: Point) -> (r: Cell)
        requires
            self.wf(),
            self.spec_size().in_bounds(p),
        ensures
            r == self.cell_at(p),
    {
        *self.cells.get(p)
    }

    /// The visual state the rendering collaborator consumes.
    pub fn armed(&self, p: Point) -> (r: bool)
        requires
            self.wf(),
            self.spec_size().in_bounds(p),
        ensures
            r == self.cell_at(p).spec_is_armed(),
    {
        self.cells.get(p).is_armed()
    }

    /// All points of the board in row-major order.
    pub fn points(&self) -> (r: Vec<Point>)
        ensures
            r@.len() == (self.spec_size().spec_width() as int) * (
            self.spec_size().spec_height() as int),
            forall|i: int|
                0 <= i < r@.len() ==> (#[trigger] r@[i]).0 == i % (
                self.spec_size().spec_width() as int) && r@[i].1 == i / (
                self.spec_size().spec_width() as int),
            forall|i: int| 0 <= i < r@.len() ==> self.spec_size().in_bounds(#[trigger] r@[i]),
    {
        self.size.points()
    }

    /// Adopts a new theme.
    pub fn change_textures(&mut self, texture: Texture)
        ensures
            same_interaction(final(self), old(self)),
            final(self).spec_texture() == texture,
            final(self).spec_solver() == old(self).spec_solver(),
            final(self).spec_auto() == old(self).spec_auto(),
            final(self).spec_flag_chord() == old(self).spec_flag_chord(),
            final(self).spec_hover_chord() == old(self).spec_hover_chord(),
            old(self).wf() ==> final(self).wf(),
    {
        self.texture = texture;
    }

    /// Switches autoplay chaining on or off.  A loop that is already
    /// running is not affected.
    pub fn set_auto(&mut self, auto: bool)
        ensures
            same_interaction(final(self), old(self)),
            final(self).spec_auto() == (AutoplayConfig { enabled: auto, ..old(self).spec_auto() }),
            final(self).spec_solver() == old(self).spec_solver(),
            final(self).spec_texture() == old(self).spec_texture(),
            final(self).spec_flag_chord() == old(self).spec_flag_chord(),
            final(self).spec_hover_chord() == old(self).spec_hover_chord(),
            old(self).wf() ==> final(self).wf(),
    {
        self.auto.enabled = auto;
    }

    /// Replaces the whole autoplay configuration.
    pub fn set_auto_config(&mut self, auto: AutoplayConfig)
        ensures
            same_interaction(final(self), old(self)),
            final(self).spec_auto() == auto,
            final(self).spec_solver() == old(self).spec_solver(),
            final(self).spec_texture() == old(self).spec_texture(),
            final(self).spec_flag_chord() == old(self).spec_flag_chord(),
            final(self).spec_hover_chord() == old(self).spec_hover_chord(),
            old(self).wf() ==> final(self).wf(),
    {
        self.auto = auto;
    }

    pub fn set_flag_chord(&mut self, flag_chord: bool)
        ensures
            same_interaction(final(self), old(self)),
            final(self).spec_flag_chord() == flag_chord,
            final(self).spec_solver() == old(self).spec_solver(),
            final(self).spec_texture() == old(self).spec_texture(),
            final(self).spec_auto() == old(self).spec_auto(),
            final(self).spec_hover_chord() == old(self).spec_hover_chord(),
            old(self).wf() ==> final(self).wf(),
    {
        self.flag_chord = flag_chord;
    }

    pub fn set_hover_chord(&mut self, hover_chord: bool)
        ensures
            same_interaction(final(self), old(self)),
            final(self).spec_hover_chord() == hover_chord,
            final(self).spec_solver() == old(self).spec_solver(),
            final(self).spec_texture() == old(self).spec_texture(),
            final(self).spec_auto() == old(self).spec_auto(),
            final(self).spec_flag_chord() == old(self).spec_flag_chord(),
            old(self).wf() ==> final(self).wf(),
    {
        self.hover_chord = hover_chord;
    }

    /// Handles one message addressed to the cell at `point`: transforms
    /// that cell's interaction state, propagates the forced-armed flag to
    /// the direct neighbours of a revealed numbered cell, and returns
    /// which operation the driver must launch, if any.  Counters and the
    /// registry are untouched: launching is a separate step.
    pub fn update_cell(&mut self, point: Point, msg: cell::Message, snap: &BoardState) -> (r:
        Effect)
        requires
            old(self).wf(),
            snap.wf(),
            snap.size == old(self).spec_size(),
            old(self).spec_size().in_bounds(point),
        ensures
            final(self).wf(),
            r == spec_gesture_effect(
                old(self).cell_at(point),
                msg,
                snap,
                point,
                old(self).spec_hover_chord(),
            ),
            final(self).spec_cells()@ == spec_apply_gesture(
                old(self).spec_cells()@,
                old(self).spec_size(),
                snap,
                point,
                msg,
                old(self).spec_hover_chord(),
            ),
            final(self).spec_size() == old(self).spec_size(),
            final(self).spec_registry() == old(self).spec_registry(),
            final(self).spec_autoing() == old(self).spec_autoing(),
            same_config(final(self), old(self)),
    {
        let ghost g0 = *self;
        let c0 = *self.cells.get(point);
        let mut c1 = c0;
        let mut effect = Effect::Nothing;
        match msg {
            cell::Message::Press(_) => {
                c1.pressed = true;
            },
            cell::Message::Release(_) => {
                c1.pressed = false;
            },
            cell::Message::SelfPress(b) => {
                if matches!(b, MouseButton::Right) {
                    c1.pressed = false;
                    effect = Effect::LaunchFlag(point);
                } else {
                    c1.pressed = true;
                }
            },
            cell::Message::SelfRelease(b) => {
                if c0.pressed && matches!(b, MouseButton::Left) {
                    effect = Effect::LaunchReveal(point);
                } else {
                    c1.pressed = false;
                }
            },
            cell::Message::ForceArmed(v) => {
                c1.force = v;
            },
            cell::Message::Enter => {
                c1.hovering = true;
                if self.hover_chord {
                    if let CellType::Safe(n) = snap.cells.get(point).cell_type {
                        if n > 0 {
                            effect = Effect::LaunchReveal(point);
                        }
                    }
                }
            },
            cell::Message::Exit => {
                c1.hovering = false;
            },
        }
        proof {
            assert(c1 == spec_cell_after(c0, msg));
            assert(effect == spec_gesture_effect(c0, msg, snap, point, g0.spec_hover_chord()));
        }
        self.cells.set(point, c1);
        let is_gesture = matches!(
            msg,
            cell::Message::Press(_) | cell::Message::Release(_) | cell::Message::SelfPress(_)
                | cell::Message::SelfRelease(_) | cell::Message::Enter | cell::Message::Exit
        );
        let is_transition = matches!(
            msg,
            cell::Message::Press(_) | cell::Message::Release(_) | cell::Message::SelfPress(_)
                | cell::Message::SelfRelease(_)
        );
        let prop = matches!(effect, Effect::Nothing) && is_gesture && (c1.pressed || is_transition)
            && matches!(snap.cells.get(point).cell_type, CellType::Safe(_));
        proof {
            assert(prop == spec_prop_runs(c1, msg, snap, point, effect));
        }
        if prop {
            let down = c1.is_down();
            let ns = self.size.neighbours(point);
            proof {
                self.size.lemma_neighbours(point);
                assert(ns@.take(0) =~= Seq::<Point>::empty());
            }
            let mut j: usize = 0;
            while j < ns.len()
                invariant
                    g0.wf(),
                    snap.wf(),
                    snap.size == g0.spec_size(),
                    g0.spec_size().in_bounds(point),
                    self.spec_size() == g0.spec_size(),
                    self.spec_registry() == g0.spec_registry(),
                    self.spec_autoing() == g0.spec_autoing(),
                    same_config(self, &g0),
                    self.spec_cells().wf(),
                    self.spec_cells().spec_width() == g0.spec_size().spec_width(),
                    self.spec_cells().spec_height() == g0.spec_size().spec_height(),
                    j <= ns@.len(),
                    ns@ == g0.spec_size().neighbours_seq(point),
                    forall|q: Point|
                        ns@.contains(q) <==> g0.spec_size().is_neighbour(point, q),
                    c1 == spec_cell_after(g0.cell_at(point), msg),
                    down == c1.spec_is_down(),
                    forall|u: Point|
                        #[trigger] g0.spec_size().in_bounds(u) ==> self.cell_at(u) == (if u
                            == point {
                            c1
                        } else if ns@.take(j as int).contains(u) {
                            (Cell { force: down, ..g0.cell_at(u) })
                        } else {
                            g0.cell_at(u)
                        }),
                decreases ns@.len() - j,
            {
                let q = ns[j];
                proof {
                    assert(ns@.contains(q));
                }
                let mut cq = *self.cells.get(q);
                cq.force = down;
                self.cells.set(q, cq);
                proof {
                    assert forall|u: Point| #[trigger] g0.spec_size().in_bounds(u) implies
                        self.cell_at(u) == (if u == point {
                        c1
                    } else if ns@.take(j as int + 1).contains(u) {
                        (Cell { force: down, ..g0.cell_at(u) })
                    } else {
                        g0.cell_at(u)
                    }) by {
                        if u == q {
                            assert(ns@.take(j as int + 1).contains(u)) by {
                                assert(ns@.take(j as int + 1)[j as int] == q);
                            }
                            assert(q != point) by {
                                assert(g0.spec_size().is_neighbour(point, q));
                            }
                        } else {
                            assert(ns@.take(j as int + 1).contains(u) <==> ns@.take(
                                j as int,
                            ).contains(u)) by {
                                if ns@.take(j as int + 1).contains(u) {
                                    let w = choose|w: int|
                                        0 <= w < j + 1 && #[trigger] ns@.take(j as int + 1)[w]
                                            == u;
                                    assert(w < j);
                                    assert(ns@.take(j as int)[w] == u);
                                }
                                if ns@.take(j as int).contains(u) {
                                    let w = choose|w: int|
                                        0 <= w < j && #[trigger] ns@.take(j as int)[w] == u;
                                    assert(ns@.take(j as int + 1)[w] == u);
                                }
                            }
                        }
                    }
                }
                j = j + 1;
            }
            proof {
                assert(ns@.take(ns@.len() as int) =~= ns@);
            }
        }
        proof {
            let va = spec_apply_gesture(
                g0.spec_cells()@,
                g0.spec_size(),
                snap,
                point,
                msg,
                g0.spec_hover_chord(),
            );
            let w = g0.spec_size().spec_width() as int;
            let h = g0.spec_size().spec_height() as int;
            if !prop {
                assert forall|u: Point| #[trigger] g0.spec_size().in_bounds(u) implies
                    self.cell_at(u) == (if u == point {
                    c1
                } else {
                    g0.cell_at(u)
                }) by {}
            } else {
                g0.spec_size().lemma_neighbours(point);
            }
            assert forall|x: int, y: int| 0 <= x < w && 0 <= y < h implies self.spec_cells()@[x][y]
                == va[x][y] by {
                let u = (x as usize, y as usize);
                assert(g0.spec_size().in_bounds(u));
                assert(self.cell_at(u) == self.spec_cells()@[x][y]);
                assert(va[x][y] == spec_cell_result(
                    g0.spec_cells()@,
                    g0.spec_size(),
                    snap,
                    point,
                    msg,
                    g0.spec_hover_chord(),
                    u,
                ));
            }
            assert(self.spec_cells()@ =~~= va);
            assert forall|p: Point| #[trigger] g0.spec_size().in_bounds(p) implies self.cell_at(
                p,
            ).revealing == self.spec_registry().spec_load(p) by {
                assert(self.cell_at(p).revealing == g0.cell_at(p).revealing);
            }
        }
        effect
    }

    /// Launches a manual reveal/chord operation on `point`: acquires the
    /// reveal counters of the operation's reveal set, then registers the
    /// operation's cancellation capability together with that set under a
    /// fresh token, which it returns.  The driver spawns the operation's
    /// engine calls and reports back through `finish_op`.
    pub fn launch_left(
        &mut self,
        point: Point,
        snap: &BoardState,
        cancel: futures_util::future::AbortHandle,
    ) -> (token: u64)
        requires
            old(self).wf(),
            snap.wf(),
            snap.size == old(self).spec_size(),
            old(self).spec_size().in_bounds(point),
            old(self).spec_registry().spec_next_token() < u64::MAX,
            forall|q: Point|
                #[trigger] old(self).spec_size().in_bounds(q) ==> old(self).cell_at(q).revealing
                    < u32::MAX,
        ensures
            final(self).wf(),
            token == old(self).spec_registry().spec_next_token(),
            !old(self).spec_registry().spec_contains(token),
            final(self).spec_registry().spec_contains(token),
            ({
                let es0 = old(self).spec_registry().entries_seq();
                let es1 = final(self).spec_registry().entries_seq();
                &&& es1.len() == es0.len() + 1
                &&& es1.take(es0.len() as int) == es0
                &&& es1.last().token == token
                &&& es1.last().cancel == cancel
                &&& es1.last().acquired@ == spec_reveal_set(snap, point)
            }),
            final(self).spec_registry().spec_next_token() == old(self).spec_registry().spec_next_token() + 1,
            forall|q: Point|
                #[trigger] old(self).spec_size().in_bounds(q) ==> final(self).cell_at(q).revealing
                    == old(self).cell_at(q).revealing + (if spec_reveal_set(
                    snap,
                    point,
                ).contains(q) {
                    1int
                } else {
                    0int
                }),
            forall|q: Point|
                #[trigger] old(self).spec_size().in_bounds(q) ==> final(self).cell_at(q) == (Cell {
                    revealing: final(self).cell_at(q).revealing,
                    ..old(self).cell_at(q)
                }),
            final(self).spec_size() == old(self).spec_size(),
            final(self).spec_autoing() == old(self).spec_autoing(),
            same_config(final(self), old(self)),
    {
        let ghost g0 = *self;
        let set = reveal_set(snap, point);
        let mut j: usize = 0;
        proof {
            assert(set@.take(0) =~= Seq::<Point>::empty());
        }
        while j < set.len()
            invariant
                g0.wf(),
                set@ == spec_reveal_set(snap, point),
                set@.no_duplicates(),
                forall|t: int| 0 <= t < set@.len() ==> g0.spec_size().in_bounds(#[trigger] set@[t]),
                forall|q: Point|
                    #[trigger] g0.spec_size().in_bounds(q) ==> g0.cell_at(q).revealing < u32::MAX,
                j <= set@.len(),
                self.spec_size() == g0.spec_size(),
                self.spec_registry() == g0.spec_registry(),
                self.spec_autoing() == g0.spec_autoing(),
                same_config(self, &g0),
                self.spec_cells().wf(),
                self.spec_cells().spec_width() == g0.spec_size().spec_width(),
                self.spec_cells().spec_height() == g0.spec_size().spec_height(),
                forall|q: Point|
                    #[trigger] g0.spec_size().in_bounds(q) ==> self.cell_at(q) == (Cell {
                        revealing: (g0.cell_at(q).revealing + (if set@.take(
                            j as int,
                        ).contains(q) {
                            1int
                        } else {
                            0int
                        })) as u32,
                        ..g0.cell_at(q)
                    }),
            decreases set@.len() - j,
        {
            let q = set[j];
            proof {
                if set@.take(j as int).contains(q) {
                    let w = choose|w: int| 0 <= w < j && #[trigger] set@.take(j as int)[w] == q;
                    assert(set@[w] == set@[j as int]);
                }
            }
            let mut cq = *self.cells.get(q);
            cq.revealing = cq.revealing + 1;
            self.cells.set(q, cq);
            proof {
                assert forall|u: Point| #[trigger] g0.spec_size().in_bounds(u) implies
                    self.cell_at(u) == (Cell {
                    revealing: (g0.cell_at(u).revealing + (if set@.take(j as int + 1).contains(
                        u,
                    ) {
                        1int
                    } else {
                        0int
                    })) as u32,
                    ..g0.cell_at(u)
                }) by {
                    if u == q {
                        assert(set@.take(j as int + 1).contains(q)) by {
                            assert(set@.take(j as int + 1)[j as int] == q);
                        }
                    } else {
                        assert(set@.take(j as int + 1).contains(u) <==> set@.take(
                            j as int,
                        ).contains(u)) by {
                            if set@.take(j as int + 1).contains(u) {
                                let w = choose|w: int|
                                    0 <= w < j + 1 && #[trigger] set@.take(j as int + 1)[w] == u;
                                assert(w < j);
                                assert(set@.take(j as int)[w] == u);
                            }
                            if set@.take(j as int).contains(u) {
                                let w = choose|w: int|
                                    0 <= w < j && #[trigger] set@.take(j as int)[w] == u;
                                assert(set@.take(j as int + 1)[w] == u);
                            }
                        }
                    }
                }
            }
            j = j + 1;
        }
        proof {
            assert(set@.take(set@.len() as int) =~= set@);
        }
        let token = self.registry.register(cancel, set);
        proof {
            let es0 = g0.spec_registry().entries_seq();
            let es1 = self.spec_registry().entries_seq();
            let e = es1.last();
            assert(es1.take(es0.len() as int) =~= es0);
            assert forall|p: Point| #[trigger] g0.spec_size().in_bounds(p) implies self.cell_at(
                p,
            ).revealing == self.spec_registry().spec_load(p) by {
                lemma_load_push(es0, e, p);
                crate::registry::lemma_occ_no_dup(spec_reveal_set(snap, point), p);
            }
            assert forall|i: int| 0 <= i < es1.len() implies acquired_ok(
                self.spec_size(),
                (#[trigger] es1[i]).acquired@,
            ) by {
                if i < es1.len() - 1 {
                    assert(es1[i] == es0[i]);
                }
            }
        }
        token
    }

    /// Registers an operation that holds no reveal counter — a flag
    /// toggle or an autoplay step — under a fresh token, which it
    /// returns.
    pub fn register_plain(&mut self, cancel: futures_util::future::AbortHandle) -> (token: u64)
        requires
            old(self).wf(),
            old(self).spec_registry().spec_next_token() < u64::MAX,
        ensures
            final(self).wf(),
            token == old(self).spec_registry().spec_next_token(),
            !old(self).spec_registry().spec_contains(token),
            final(self).spec_registry().spec_contains(token),
            ({
                let es0 = old(self).spec_registry().entries_seq();
                let es1 = final(self).spec_registry().entries_seq();
                &&& es1.len() == es0.len() + 1
                &&& es1.take(es0.len() as int) == es0
                &&& es1.last().token == token
                &&& es1.last().cancel == cancel
                &&& es1.last().acquired@ == Seq::<Point>::empty()
            }),
            final(self).spec_registry().spec_next_token() == old(self).spec_registry().spec_next_token() + 1,
            final(self).spec_cells() == old(self).spec_cells(),
            final(self).spec_size() == old(self).spec_size(),
            final(self).spec_autoing() == old(self).spec_autoing(),
            same_config(final(self), old(self)),
    {
        let ghost g0 = *self;
        let token = self.registry.register(cancel, Vec::new());
        proof {
            let es0 = g0.spec_registry().entries_seq();
            let es1 = self.spec_registry().entries_seq();
            let e = es1.last();
            assert(es1.take(es0.len() as int) =~= es0);
            assert(e.acquired@ =~= Seq::<Point>::empty());
            assert forall|p: Point| #[trigger] g0.spec_size().in_bounds(p) implies self.cell_at(
                p,
            ).revealing == self.spec_registry().spec_load(p) by {
                lemma_load_push(es0, e, p);
                assert(occ(e.acquired@, p) == 0);
            }
            assert forall|i: int| 0 <= i < es1.len() implies acquired_ok(
                self.spec_size(),
                (#[trigger] es1[i]).acquired@,
            ) by {
                if i < es1.len() - 1 {
                    assert(es1[i] == es0[i]);
                }
            }
        }
        token
    }

    /// The completion handler of every operation, run on success, engine
    /// rejection and cancellation alike: releases exactly the counters
    /// the operation acquired and removes its registry entry.  A token
    /// that is no longer registered — its operation was swept away by a
    /// restart — releases nothing: the restart already reset the
    /// counters.  Returns whether the driver should chain an autoplay
    /// loop now: autoplay is enabled and no loop is running.
    pub fn finish_op(&mut self, token: u64) -> (chain: bool)
        requires
            old(self).wf(),
        ensures
            final(self).wf(),
            chain == (old(self).spec_auto().enabled && !old(self).spec_autoing()),
            !final(self).spec_registry().spec_contains(token),
            !old(self).spec_registry().spec_contains(token) ==> final(self).spec_registry().entries_seq() == old(self).spec_registry().entries_seq() && final(self).spec_cells() == old(self).spec_cells(),
            old(self).spec_registry().spec_contains(token) ==> ({
                let es0 = old(self).spec_registry().entries_seq();
                let i = choose|i: int|
                    0 <= i < es0.len() && (#[trigger] es0[i]).token == token;
                &&& final(self).spec_registry().entries_seq() == es0.remove(i)
                &&& forall|q: Point|
                    #[trigger] old(self).spec_size().in_bounds(q) ==> final(self).cell_at(
                        q,
                    ).revealing == old(self).cell_at(q).revealing - occ(es0[i].acquired@, q)
                &&& forall|q: Point|
                    #[trigger] old(self).spec_size().in_bounds(q) ==> final(self).cell_at(q) == (
                    Cell { revealing: final(self).cell_at(q).revealing, ..old(self).cell_at(q) })
            }),
            final(self).spec_registry().spec_next_token() == old(self).spec_registry().spec_next_token(),
            final(self).spec_size() == old(self).spec_size(),
            final(self).spec_autoing() == old(self).spec_autoing(),
            same_config(final(self), old(self)),
    {
        let ghost g0 = *self;
        let chain = self.auto.enabled && !self.autoing;
        let removed = self.registry.complete(token);
        match removed {
            None => chain,
            Some(op) => {
                let ghost es0 = g0.spec_registry().entries_seq();
                let ghost w = choose|i: int|
                    0 <= i < es0.len() && (#[trigger] es0[i]).token == token;
                let ghost reg1 = self.spec_registry();
                proof {
                    assert(op == es0[w]);
                    assert(acquired_ok(g0.spec_size(), op.acquired@));
                    assert forall|p: Point| #[trigger] g0.spec_size().in_bounds(p) implies
                        self.cell_at(p).revealing as int == reg1.spec_load(p) + occ(
                        op.acquired@.skip(0),
                        p,
                    ) by {
                        lemma_load_remove(es0, w, p);
                        assert(op.acquired@.skip(0) =~= op.acquired@);
                    }
                    assert forall|i: int| 0 <= i < reg1.entries_seq().len() implies acquired_ok(
                        g0.spec_size(),
                        (#[trigger] reg1.entries_seq()[i]).acquired@,
                    ) by {
                        if i < w {
                            assert(reg1.entries_seq()[i] == es0[i]);
                        } else {
                            assert(reg1.entries_seq()[i] == es0[i + 1]);
                        }
                    }
                }
                let mut j: usize = 0;
                while j < op.acquired.len()
                    invariant
                        g0.wf(),
                        acquired_ok(g0.spec_size(), op.acquired@),
                        j <= op.acquired@.len(),
                        self.spec_size() == g0.spec_size(),
                        self.spec_registry() == reg1,
                        reg1.wf(),
                        forall|i: int|
                            0 <= i < reg1.entries_seq().len() ==> acquired_ok(
                                g0.spec_size(),
                                (#[trigger] reg1.entries_seq()[i]).acquired@,
                            ),
                        self.spec_autoing() == g0.spec_autoing(),
                        same_config(self, &g0),
                        self.spec_cells().wf(),
                        self.spec_cells().spec_width() == g0.spec_size().spec_width(),
                        self.spec_cells().spec_height() == g0.spec_size().spec_height(),
                        forall|p: Point|
                            #[trigger] g0.spec_size().in_bounds(p) ==> self.cell_at(
                                p,
                            ).revealing as int == reg1.spec_load(p) + occ(
                                op.acquired@.skip(j as int),
                                p,
                            ),
                        forall|p: Point|
                            #[trigger] g0.spec_size().in_bounds(p) ==> self.cell_at(p) == (Cell {
                                revealing: self.cell_at(p).revealing,
                                ..g0.cell_at(p)
                            }),
                    decreases op.acquired@.len() - j,
                {
                    let q = op.acquired[j];
                    proof {
                        assert(g0.spec_size().in_bounds(q));
                        assert(op.acquired@.skip(j as int).first() == q);
                        assert(op.acquired@.skip(j as int).drop_first() =~= op.acquired@.skip(
                            j as int + 1,
                        ));
                    }
                    let mut cq = *self.cells.get(q);
                    proof {
                        assert(occ(op.acquired@.skip(j as int), q) == 1 + occ(
                            op.acquired@.skip(j as int + 1),
                            q,
                        ));
                    }
                    cq.revealing = cq.revealing - 1;
                    self.cells.set(q, cq);
                    proof {
                        assert forall|p: Point| #[trigger] g0.spec_size().in_bounds(p) implies
                            self.cell_at(p).revealing as int == reg1.spec_load(p) + occ(
                            op.acquired@.skip(j as int + 1),
                            p,
                        ) by {
                            if p != q {
                                assert(occ(op.acquired@.skip(j as int), p) == occ(
                                    op.acquired@.skip(j as int + 1),
                                    p,
                                ));
                            }
                        }
                    }
                    j = j + 1;
                }
                proof {
                    assert(op.acquired@.skip(op.acquired@.len() as int) =~= Seq::<Point>::empty());
                    assert forall|p: Point| #[trigger] g0.spec_size().in_bounds(p) implies
                        self.cell_at(p).revealing == reg1.spec_load(p) by {
                        assert(occ(op.acquired@.skip(op.acquired@.len() as int), p) == 0);
                    }
                    assert forall|p: Point| #[trigger] g0.spec_size().in_bounds(p) implies
                        self.cell_at(p).revealing == g0.cell_at(p).revealing - occ(
                        op.acquired@,
                        p,
                    ) by {
                        lemma_load_remove(es0, w, p);
                    }
                }
                chain
            },
        }
    }

    /// Claims the autoplay loop: returns whether this request actually
    /// started it.  A request while a loop is already running is a no-op
    /// and returns false, so exactly one loop can be active per session.
    pub fn auto_begin(&mut self) -> (started: bool)
        requires
            old(self).wf(),
        ensures
            final(self).wf(),
            started == !old(self).spec_autoing(),
            final(self).spec_autoing(),
            !started ==> *final(self) == *old(self),
            final(self).spec_cells() == old(self).spec_cells(),
            final(self).spec_registry() == old(self).spec_registry(),
            final(self).spec_size() == old(self).spec_size(),
            same_config(final(self), old(self)),
    {
        let started = !self.autoing;
        self.autoing = true;
        started
    }

    /// Ends the autoplay loop: completes the final step's token (whether
    /// the step finished or was cancelled) and clears the running flag,
    /// after which a new loop may be chained.
    pub fn auto_end(&mut self, token: u64)
        requires
            old(self).wf(),
        ensures
            final(self).wf(),
            !final(self).spec_autoing(),
            !final(self).spec_registry().spec_contains(token),
            !old(self).spec_registry().spec_contains(token) ==> final(self).spec_registry().entries_seq() == old(self).spec_registry().entries_seq() && final(self).spec_cells() == old(self).spec_cells(),
            old(self).spec_registry().spec_contains(token) ==> ({
                let es0 = old(self).spec_registry().entries_seq();
                let i = choose|i: int|
                    0 <= i < es0.len() && (#[trigger] es0[i]).token == token;
                &&& final(self).spec_registry().entries_seq() == es0.remove(i)
                &&& forall|q: Point|
                    #[trigger] old(self).spec_size().in_bounds(q) ==> final(self).cell_at(
                        q,
                    ).revealing == old(self).cell_at(q).revealing - occ(es0[i].acquired@, q)
            }),
            final(self).spec_size() == old(self).spec_size(),
            same_config(final(self), old(self)),
    {
        let _ = self.finish_op(token);
        self.autoing = false;
    }

    /// Restart: cancels every outstanding operation, clears the
    /// registry, resets every cell's interaction state and reveal counter
    /// to defaults and clears the autoplay running flag.  The driver then
    /// reinitialises the engine with the session's solver.
    pub fn restart(&mut self)
        requires
            old(self).wf(),
        ensures
            final(self).wf(),
            final(self).spec_registry().entries_seq().len() == 0,
            final(self).spec_registry().spec_next_token() == old(self).spec_registry().spec_next_token(),
            !final(self).spec_autoing(),
            forall|q: Point|
                #[trigger] final(self).spec_size().in_bounds(q) ==> final(self).cell_at(q)
                    == Cell::default_spec(),
            final(self).spec_size() == old(self).spec_size(),
            same_config(final(self), old(self)),
    {
        self.registry.cancel_all();
        let width = self.size.width();
        let height = self.size.height();
        self.cells = Grid::new(width, height, Cell::new());
        self.autoing = false;
    }

    /// The session's message handler.  Gameplay gestures are gated by the
    /// snapshot's status: while the game is not in progress, cell
    /// messages are no-ops.  A broadcast mouse release clears the pressed
    /// flag of every cell; a restart cancels and resets everything and
    /// asks the driver to reinitialise the engine.
    pub fn update(&mut self, message: Message, snap: &BoardState) -> (r: Effect)
        requires
            old(self).wf(),
            snap.wf(),
            snap.size == old(self).spec_size(),
            message matches Message::Cell(pm) ==> old(self).spec_size().in_bounds(pm.0),
        ensures
            final(self).wf(),
            spec_update_rel(*old(self), *final(self), message, snap, r),
    {
        match message {
            Message::Cell(pm) => {
                let (point, m) = pm;
                if !matches!(snap.status, GameStatus::Playing) {
                    return Effect::Nothing;
                }
                self.update_cell(point, m, snap)
            },
            Message::MouseRelease(button) => {
                let ghost g0 = *self;
                let pts = self.points();
                let mut k: usize = 0;
                proof {
                    assert(pts@ =~= spec_points(g0.spec_size()));
                    assert(pts@.take(0) =~= Seq::<Point>::empty());
                }
                while k < pts.len()
                    invariant
                        g0.wf(),
                        snap.wf(),
                        snap.size == g0.spec_size(),
                        k <= pts@.len(),
                        pts@ == spec_points(g0.spec_size()),
                        forall|t: int|
                            0 <= t < pts@.len() ==> g0.spec_size().in_bounds(#[trigger] pts@[t]),
                        self.wf(),
                        self.spec_size() == g0.spec_size(),
                        self.spec_registry() == g0.spec_registry(),
                        self.spec_autoing() == g0.spec_autoing(),
                        same_config(self, &g0),
                        self.spec_cells()@ == spec_release_fold(
                            g0.spec_cells()@,
                            g0.spec_size(),
                            snap,
                            button,
                            pts@.take(k as int),
                            g0.spec_hover_chord(),
                        ),
                    decreases pts@.len() - k,
                {
                    let q = pts[k];
                    let ghost pre = self.spec_cells()@;
                    let _ = self.update_cell(q, cell::Message::Release(button), snap);
                    proof {
                        assert(pts@.take(k as int + 1).drop_last() =~= pts@.take(k as int));
                        assert(pts@.take(k as int + 1).last() == q);
                    }
                    k = k + 1;
                }
                proof {
                    assert(pts@.take(pts@.len() as int) =~= pts@);
                }
                Effect::Nothing
            },
            Message::Restart => {
                self.restart();
                Effect::Reinitialize
            },
            Message::Repaint => Effect::Nothing,
        }
    }
}

} // verus!
