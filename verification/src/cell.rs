//! Per-cell interaction state and the gesture messages a cell produces.

use vstd::prelude::*;

verus! {

/// A pointer button, as the windowing collaborator reports it.
#[derive(Clone, Copy, Debug, PartialEq, Eq, Structural)]
pub enum MouseButton {
    Left,
    Right,
    Middle,
    Back,
    Forward,
    Other(u16),
}

/// An engine-level operation a gesture can translate to.
#[derive(Clone, Copy, Debug, PartialEq, Eq, Structural)]
pub enum Operation {
    Reveal,
    Chord,
    Flag,
}

/// A gesture or bookkeeping message addressed to one cell.  `SelfPress` and
/// `SelfRelease` originate on the cell itself; `Press` and `Release` are
/// broadcast transitions from elsewhere.
#[derive(Clone, Copy, Debug, PartialEq, Eq, Structural)]
pub enum Message {
    Press(MouseButton),
    Release(MouseButton),
    SelfPress(MouseButton),
    SelfRelease(MouseButton),
    ForceArmed(bool),
    Enter,
    Exit,
}

impl Message {
    /// Which engine operations the message could stand for, if any.
    pub open spec fn spec_to_action(&self) -> Option<Seq<Operation>> {
        match *self {
            Message::SelfPress(MouseButton::Right) => Some(seq![Operation::Flag]),
            Message::SelfRelease(MouseButton::Left) => Some(
                seq![Operation::Reveal, Operation::Chord],
            ),
            _ => None,
        }
    }

    pub fn to_action(&self) -> (r: Option<Vec<Operation>>)
        ensures
            r is Some <==> self.spec_to_action() is Some,
            r matches Some(v) ==> self.spec_to_action() matches Some(s) && v@ == s,
    {
        match self {
            Message::SelfPress(MouseButton::Right) => {
                let mut v: Vec<Operation> = Vec::new();
                v.push(Operation::Flag);
                proof {
                    assert(v@ =~= seq![Operation::Flag]);
                }
                Some(v)
            },
            Message::SelfRelease(MouseButton::Left) => {
                let mut v: Vec<Operation> = Vec::new();
                v.push(Operation::Reveal);
                v.push(Operation::Chord);
                proof {
                    assert(v@ =~= seq![Operation::Reveal, Operation::Chord]);
                }
                Some(v)
            },
            _ => None,
        }
    }

    pub fn is_left_click(&self) -> (r: bool)
        ensures
            r == (*self == Message::SelfRelease(MouseButton::Left)),
    {
        matches!(self, Message::SelfRelease(MouseButton::Left))
    }

    pub fn is_right_click(&self) -> (r: bool)
        ensures
            r == (*self == Message::SelfPress(MouseButton::Right)),
    {
        matches!(self, Message::SelfPress(MouseButton::Right))
    }
}

/// The interaction state of one cell: the pressed/hovering/forced flags the
/// gesture handlers maintain, and the reveal counter that stays positive
/// while reveal operations touching the cell are in flight.
#[derive(Clone, Copy, Debug, PartialEq, Eq, Structural)]
pub struct Cell {
    pub hovering: bool,
    pub pressed: bool,
    pub force: bool,
    pub revealing: u32,
}

impl Cell {
    /// A cell with no interaction recorded.
    pub fn new() -> (r: Cell)
        ensures
            r == Cell::default_spec(),
    {
        Cell { hovering: false, pressed: false, force: false, revealing: 0 }
    }

    pub open spec fn default_spec() -> Cell {
        Cell { hovering: false, pressed: false, force: false, revealing: 0 }
    }

    /// Visually depressed: actively held under the pointer, or touched by an
    /// in-flight reveal.
    pub open spec fn spec_is_down(&self) -> bool {
        (self.pressed && self.hovering) || self.revealing > 0
    }

    pub fn is_down(&self) -> (r: bool)
        ensures
            r == self.spec_is_down(),
    {
        (self.pressed && self.hovering) || self.revealing > 0
    }

    /// The state the rendering collaborator consumes: down, or forced down
    /// by a neighbouring cell's interaction.
    pub open spec fn spec_is_armed(&self) -> bool {
        self.spec_is_down() || self.force
    }

    pub fn is_armed(&self) -> (r: bool)
        ensures
            r == self.spec_is_armed(),
    {
        self.is_down() || self.force
    }
}

} // verus!
