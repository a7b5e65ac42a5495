//! The mouse buttons the input-state machine tracks, the bit set that holds
//! their per-frame membership, and the shape of a decoded mouse event.

use vstd::prelude::*;

use crate::Context;
use crate::ContextView;
use crate::StateView;
use crate::keyset::lemma_bit_andnot;
use crate::keyset::lemma_bit_or;
use crate::keyset::nth_bit;

verus! {

/// A mouse button the engine recognizes.
#[derive(Debug, Clone, Copy, PartialEq, Eq, Structural)]
pub enum MouseButton {
    Left,
    Right,
    Middle,
}

/// The position of each button in the bit set that holds button
/// membership.
pub open spec fn button_index(b: MouseButton) -> u64 {
    match b {
        MouseButton::Left => 0u64,
        MouseButton::Right => 1u64,
        MouseButton::Middle => 2u64,
    }
}

impl MouseButton {
    /// The button's bit position, as executable code.
    pub fn index(self) -> (i: u64)
        ensures
            i == button_index(self),
            i < 3,
    {
        match self {
            MouseButton::Left => 0,
            MouseButton::Right => 1,
            MouseButton::Middle => 2,
        }
    }
}

/// Distinct buttons occupy distinct bit positions.
pub proof fn lemma_button_index_injective(b1: MouseButton, b2: MouseButton)
    requires
        button_index(b1) == button_index(b2),
    ensures
        b1 == b2,
{
}

/// The set of buttons whose bit is set in the mask.
#[derive(Clone, Copy)]
pub struct ButtonSet {
    bits: u64,
}

impl View for ButtonSet {
    type V = Set<MouseButton>;

    closed spec fn view(&self) -> Set<MouseButton> {
        Set::new(|b: MouseButton| nth_bit(self.bits, button_index(b)))
    }
}

impl ButtonSet {
    /// The set with no buttons in it.
    pub fn empty() -> (s: ButtonSet)
        ensures
            s@ == Set::<MouseButton>::empty(),
    {
        let s = ButtonSet { bits: 0 };
        proof {
            assert(forall|j: u64| (0u64 >> j) & 1 == 0) by (bit_vector);
            assert(s@ =~= Set::<MouseButton>::empty());
        }
        s
    }

    /// Whether `b` is in the set.
    pub fn contains(&self, b: MouseButton) -> (r: bool)
        ensures
            r == self@.contains(b),
    {
        (self.bits >> b.index()) & 1 == 1
    }

    /// Adds `b` to the set.
    pub fn insert(&mut self, b: MouseButton)
        ensures
            final(self)@ == old(self)@.insert(b),
    {
        let i = b.index();
        self.bits = self.bits | (1u64 << i);
        proof {
            let old_bits = old(self).bits;
            let new_bits = self.bits;
            assert forall|j: u64| j < 64 implies #[trigger] nth_bit(new_bits, j) == (nth_bit(
                old_bits,
                j,
            ) || j == button_index(b)) by {
                lemma_bit_or(old_bits, button_index(b), j);
            }
            assert forall|b2: MouseButton|
                self@.contains(b2) == old(self)@.insert(b).contains(b2) by {
                if button_index(b2) == button_index(b) {
                    lemma_button_index_injective(b2, b);
                }
            }
            assert(self@ =~= old(self)@.insert(b));
        }
    }

    /// Removes `b` from the set.
    pub fn remove(&mut self, b: MouseButton)
        ensures
            final(self)@ == old(self)@.remove(b),
    {
        let i = b.index();
        self.bits = self.bits & !(1u64 << i);
        proof {
            let old_bits = old(self).bits;
            let new_bits = self.bits;
            assert forall|j: u64| j < 64 implies #[trigger] nth_bit(new_bits, j) == (nth_bit(
                old_bits,
                j,
            ) && j != button_index(b)) by {
                lemma_bit_andnot(old_bits, button_index(b), j);
            }
            assert forall|b2: MouseButton|
                self@.contains(b2) == old(self)@.remove(b).contains(b2) by {
                if button_index(b2) == button_index(b) {
                    lemma_button_index_injective(b2, b);
                }
            }
            assert(self@ =~= old(self)@.remove(b));
        }
    }
}

/// What a mouse event does: a button transition, a movement, a drag, or a
/// kind the engine tolerates without reading it (scrolling, for one).
#[derive(Debug, Clone, Copy, PartialEq, Eq, Structural)]
pub enum MouseEventKind {
    Down(MouseButton),
    Up(MouseButton),
    Moved,
    Drag(MouseButton),
    Other,
}

/// A decoded mouse event: its kind and the terminal cell it happened on.
#[derive(Debug, Clone, Copy, PartialEq, Eq, Structural)]
pub struct MouseEventInfo {
    pub kind: MouseEventKind,
    pub column: u16,
    pub row: u16,
}

/// The pixel position a mouse event points at: its column, and its
/// terminal row doubled into pixel rows.
pub open spec fn event_position(event: MouseEventInfo) -> (u16, u16) {
    (event.column, (2 * event.row) as u16)
}

/// What a mouse event does to the frame snapshot: down and drag add the
/// button, up removes it, moves and drags update the position and append
/// it to the positions visited this frame; any other kind is tolerated
/// and changes nothing.
pub open spec fn state_after_mouse(s: StateView, event: MouseEventInfo) -> StateView {
    match event.kind {
        MouseEventKind::Down(b) => StateView { mouse_buttons: s.mouse_buttons.insert(b), ..s },
        MouseEventKind::Up(b) => StateView { mouse_buttons: s.mouse_buttons.remove(b), ..s },
        MouseEventKind::Moved => StateView {
            mouse_position: event_position(event),
            mouse_positions: s.mouse_positions.push(event_position(event)),
            ..s
        },
        MouseEventKind::Drag(b) => StateView {
            mouse_buttons: s.mouse_buttons.insert(b),
            mouse_position: event_position(event),
            mouse_positions: s.mouse_positions.push(event_position(event)),
            ..s
        },
        MouseEventKind::Other => s,
    }
}

impl Context {
    /// Applies one mouse event to the current frame's snapshot. The
    /// event's row must leave its doubled pixel row representable.
    pub fn handle_mouse_event(&mut self, event: MouseEventInfo)
        requires
            old(self).wf(),
            2 * event.row <= u16::MAX,
        ensures
            final(self).wf(),
            final(self).spec_width() == old(self).spec_width(),
            final(self).spec_height() == old(self).spec_height(),
            final(self)@ == (ContextView {
                current: state_after_mouse(old(self)@.current, event),
                ..old(self)@
            }),
    {
        match event.kind {
            MouseEventKind::Down(btn) => {
                self.current_state.mouse_buttons.insert(btn);
            },
            MouseEventKind::Up(btn) => {
                self.current_state.mouse_buttons.remove(btn);
            },
            MouseEventKind::Moved => {
                let pos: (u16, u16) = (event.column, event.row * 2);
                self.current_state.mouse_position = pos;
                self.current_state.mouse_positions.push(pos);
            },
            MouseEventKind::Drag(btn) => {
                self.current_state.mouse_buttons.insert(btn);
                let pos: (u16, u16) = (event.column, event.row * 2);
                self.current_state.mouse_position = pos;
                self.current_state.mouse_positions.push(pos);
            },
            MouseEventKind::Other => {},
        }
    }

    /// Whether `btn` is down in the current frame.
    pub fn is_mouse_button_down(&self, btn: MouseButton) -> (r: bool)
        ensures
            r == self@.current.mouse_buttons.contains(btn),
    {
        self.current_state.mouse_buttons.contains(btn)
    }

    /// Whether `btn` went down this frame: down now, not down in the
    /// previous frame.
    pub fn is_mouse_button_pressed(&self, btn: MouseButton) -> (r: bool)
        ensures
            r == (self@.current.mouse_buttons.contains(btn)
                && !self@.previous.mouse_buttons.contains(btn)),
    {
        self.current_state.mouse_buttons.contains(btn)
            && !self.previous_state.mouse_buttons.contains(btn)
    }

    /// Whether `btn` came up this frame: not down now, down in the
    /// previous frame.
    pub fn is_mouse_button_released(&self, btn: MouseButton) -> (r: bool)
        ensures
            r == (!self@.current.mouse_buttons.contains(btn)
                && self@.previous.mouse_buttons.contains(btn)),
    {
        !self.current_state.mouse_buttons.contains(btn)
            && self.previous_state.mouse_buttons.contains(btn)
    }

    /// The last known mouse position, in pixel coordinates.
    pub fn mouse_position(&self) -> (p: (u16, u16))
        ensures
            p == self@.current.mouse_position,
    {
        self.current_state.mouse_position
    }

    /// Every mouse position visited this frame, in order. After a full
    /// frame this is never empty: a frame without mouse movement reports
    /// the resting position once.
    pub fn mouse_positions(&self) -> (p: &Vec<(u16, u16)>)
        ensures
            p@ == self@.current.mouse_positions,
    {
        &self.current_state.mouse_positions
    }
}

} // verus!
