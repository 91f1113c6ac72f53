//! What the held keys ask of the scene in one tick.
//!
//! The host polls the keys and applies the edits; which key asks for what,
//! by how much and in which order is laid down here.

use crate::scalar::Scalar;
use vstd::prelude::*;

verus! {

/// The pattern of 0.01, the step of an angle, in radians.
pub const TURN: u64 = 0x3F84_7AE1_47AE_147B;

/// The pattern of -0.01.
pub const TURN_BACK: u64 = 0xBF84_7AE1_47AE_147B;

/// The pattern of 0.05, the step of the light along an axis.
pub const SHIFT: u64 = 0x3FA9_9999_9999_999A;

/// The pattern of -0.05.
pub const SHIFT_BACK: u64 = 0xBFA9_9999_9999_999A;

/// The keys that are held during a tick, each under its own name.
#[derive(Clone, Copy, Debug)]
pub struct Held {
    pub right: bool,
    pub left: bool,
    pub up: bool,
    pub down: bool,
    pub r: bool,
    pub f: bool,
    pub h: bool,
    pub y: bool,
    pub u: bool,
    pub t: bool,
    pub g: bool,
    pub j: bool,
}

/// An axis of space.
#[derive(Clone, Copy, Debug, PartialEq, Eq, Structural)]
pub enum Axis {
    X,
    Y,
    Z,
}

/// One change to the scene. An amount is added to what it changes.
#[derive(Clone, Copy, Debug)]
pub enum Edit {
    /// Add the amount to the camera's yaw.
    CameraYaw(Scalar),
    /// Add the amount to the camera's roll.
    CameraRoll(Scalar),
    /// Widen the camera's field of view by one degree.
    WidenView,
    /// Narrow the camera's field of view by one degree.
    NarrowView,
    /// Add the amount to one coordinate of the light that the keys move.
    MoveLight(Axis, Scalar),
    /// Add the amount to each of the three angles of the mesh that turns.
    TurnMesh(Scalar),
}

/// `edit` if `held`, else nothing.
pub open spec fn when(held: bool, edit: Edit) -> Seq<Edit> {
    if held {
        seq![edit]
    } else {
        Seq::empty()
    }
}

/// The edits of a tick, in the order in which they apply: the camera's yaw
/// (right, then left), its roll (up, then down), its field of view (R
/// widens, F narrows), the light along y (H, Y), z (U, T) and x (G, J), where
/// the first key of each pair steps back; and last, on every tick, the turn
/// of the mesh.
pub open spec fn edits_for(held: Held) -> Seq<Edit> {
    when(held.right, Edit::CameraYaw(Scalar { bits: TURN_BACK }))
        + when(held.left, Edit::CameraYaw(Scalar { bits: TURN }))
        + when(held.up, Edit::CameraRoll(Scalar { bits: TURN }))
        + when(held.down, Edit::CameraRoll(Scalar { bits: TURN_BACK }))
        + when(held.r, Edit::WidenView)
        + when(held.f, Edit::NarrowView)
        + when(held.h, Edit::MoveLight(Axis::Y, Scalar { bits: SHIFT_BACK }))
        + when(held.y, Edit::MoveLight(Axis::Y, Scalar { bits: SHIFT }))
        + when(held.u, Edit::MoveLight(Axis::Z, Scalar { bits: SHIFT_BACK }))
        + when(held.t, Edit::MoveLight(Axis::Z, Scalar { bits: SHIFT }))
        + when(held.g, Edit::MoveLight(Axis::X, Scalar { bits: SHIFT_BACK }))
        + when(held.j, Edit::MoveLight(Axis::X, Scalar { bits: SHIFT }))
        + seq![Edit::TurnMesh(Scalar { bits: TURN })]
}

/// Appends `edit` if `held`.
fn push_when(edits: &mut Vec<Edit>, held: bool, edit: Edit)
    ensures
        final(edits)@ == old(edits)@ + when(held, edit),
{
    if held {
        edits.push(edit);
    }
}

/// Lists the edits that the held keys ask for in one tick.
pub fn edits(held: &Held) -> (list: Vec<Edit>)
    ensures
        list@ == edits_for(*held),
{
    let mut list: Vec<Edit> = Vec::new();
    assert(list@ =~= Seq::<Edit>::empty() + Seq::<Edit>::empty());
    push_when(&mut list, held.right, Edit::CameraYaw(Scalar { bits: TURN_BACK }));
    push_when(&mut list, held.left, Edit::CameraYaw(Scalar { bits: TURN }));
    push_when(&mut list, held.up, Edit::CameraRoll(Scalar { bits: TURN }));
    push_when(&mut list, held.down, Edit::CameraRoll(Scalar { bits: TURN_BACK }));
    push_when(&mut list, held.r, Edit::WidenView);
    push_when(&mut list, held.f, Edit::NarrowView);
    push_when(&mut list, held.h, Edit::MoveLight(Axis::Y, Scalar { bits: SHIFT_BACK }));
    push_when(&mut list, held.y, Edit::MoveLight(Axis::Y, Scalar { bits: SHIFT }));
    push_when(&mut list, held.u, Edit::MoveLight(Axis::Z, Scalar { bits: SHIFT_BACK }));
    push_when(&mut list, held.t, Edit::MoveLight(Axis::Z, Scalar { bits: SHIFT }));
    push_when(&mut list, held.g, Edit::MoveLight(Axis::X, Scalar { bits: SHIFT_BACK }));
    push_when(&mut list, held.j, Edit::MoveLight(Axis::X, Scalar { bits: SHIFT }));
    list.push(Edit::TurnMesh(Scalar { bits: TURN }));
    list
}

} // verus!
