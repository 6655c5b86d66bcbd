//! The autoplay state machine.
//!
//! A running loop repeats: read a snapshot, ask the solver for a move,
//! apply the move's actions in order, wait the step delay, repeat.  The
//! transition function below decides each round from the solver's answer;
//! the driver performs the engine calls it returns.  When the solver
//! returns no move the machine moves to `End` with nothing left to do —
//! no further call, delay or snapshot read is scheduled.

use vstd::prelude::*;
use crate::board::Point;
use crate::cell::Operation;

verus! {

/// One engine call a decision function asks the driver to perform, in
/// order.  `Reveal` stands for the engine's plain left-click entry point
/// (which reveals or chords as the cell demands); `ToggleFlag` for the
/// flag toggle.
#[derive(Clone, Copy, Debug, PartialEq, Eq)]
pub enum EngineCall {
    Reveal(Point),
    ToggleFlag(Point),
}

/// One action of a solver move.
#[derive(Clone, Copy, Debug, PartialEq, Eq)]
pub struct MoveAction {
    pub point: Point,
    pub operation: Operation,
}

/// A solver's proposed batch of actions, in the order they are to be
/// applied.
pub struct MoveData {
    pub actions: Vec<MoveAction>,
}

/// The phases of the autoplay loop.
#[derive(Clone, Copy, Debug, PartialEq, Eq, Structural)]
pub enum AutoPhase {
    Start,
    SolveNext,
    End,
}

/// The engine call one autoplay action translates to: reveal and chord
/// actions go through the plain reveal entry point — the flag-chord
/// pre-pass is intentionally skipped for autoplay-issued reveals — and
/// flag actions through the flag toggle.
pub open spec fn spec_call_of_action(a: MoveAction) -> EngineCall {
    match a.operation {
        Operation::Reveal => EngineCall::Reveal(a.point),
        Operation::Chord => EngineCall::Reveal(a.point),
        Operation::Flag => EngineCall::ToggleFlag(a.point),
    }
}

/// The calls of a whole move, in the move's order.
pub open spec fn spec_calls_of_move(actions: Seq<MoveAction>) -> Seq<EngineCall> {
    actions.map_values(|a: MoveAction| spec_call_of_action(a))
}

/// One round of the autoplay loop: from the current phase and the solver's
/// answer for the latest snapshot, the next phase and the engine calls to
/// apply (in order) before the next round.  Once the machine is in `End`,
/// or as soon as the solver returns no move, it stays in `End` and no call
/// is returned.
pub fn auto_transition(phase: AutoPhase, mv: &Option<MoveData>) -> (r: (AutoPhase, Vec<EngineCall>))
    ensures
        phase is End ==> r.0 is End && r.1@ =~= Seq::<EngineCall>::empty(),
        !(phase is End) && mv is None ==> r.0 is End && r.1@ =~= Seq::<EngineCall>::empty(),
        !(phase is End) ==> (mv matches Some(m) ==> r.0 is SolveNext && r.1@
            == spec_calls_of_move(m.actions@)),
{
    match phase {
        AutoPhase::End => (AutoPhase::End, Vec::new()),
        _ => match mv {
            None => (AutoPhase::End, Vec::new()),
            Some(m) => {
                let mut calls: Vec<EngineCall> = Vec::new();
                let mut i: usize = 0;
                proof {
                    assert(m.actions@.take(0) =~= Seq::<MoveAction>::empty());
                    assert(spec_calls_of_move(m.actions@.take(0)) =~= Seq::<EngineCall>::empty());
                }
                while i < m.actions.len()
                    invariant
                        i <= m.actions@.len(),
                        calls@ == spec_calls_of_move(m.actions@.take(i as int)),
                    decreases m.actions@.len() - i,
                {
                    let a = m.actions[i];
                    let call = match a.operation {
                        Operation::Reveal => EngineCall::Reveal(a.point),
                        Operation::Chord => EngineCall::Reveal(a.point),
                        Operation::Flag => EngineCall::ToggleFlag(a.point),
                    };
                    calls.push(call);
                    proof {
                        assert(m.actions@.take(i as int + 1).drop_last() =~= m.actions@.take(
                            i as int,
                        ));
                        assert(m.actions@.take(i as int + 1).last() == a);
                        assert(calls@ =~= spec_calls_of_move(m.actions@.take(i as int + 1)));
                    }
                    i = i + 1;
                }
                proof {
                    assert(m.actions@.take(m.actions@.len() as int) =~= m.actions@);
                }
                (AutoPhase::SolveNext, calls)
            },
        },
    }
}

} // verus!
