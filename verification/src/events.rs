//! The per-frame event phase: the snapshot swap, the fold of a frame's
//! decoded events over the current snapshot, the resting-position rule,
//! and the resize handling that reshapes both buffers and forces a full
//! repaint.

use vstd::prelude::*;

use crate::Context;
use crate::ContextView;
use crate::StateView;
use crate::color::Pixel;
use crate::drawing::CellUpdate;
use crate::drawing::repaint_updates;
use crate::keyboard::KeyEventInfo;
use crate::keyboard::keys_after;
use crate::mouse::MouseEventInfo;
use crate::mouse::state_after_mouse;
use crate::vec2d::Vec2d;
use crate::vec2d::grid_const;

verus! {

/// One decoded terminal event, as the event loop hands it in.
#[derive(Debug, Clone, Copy, PartialEq, Eq, Structural)]
pub enum InputEvent {
    Key(KeyEventInfo),
    Mouse(MouseEventInfo),
    Resize(u16, u16),
    Other,
}

/// What the engine asks of an event before it takes it: a mouse row whose
/// doubled pixel row is representable, and resize dimensions whose pixel
/// buffer fits the platform's vector length.
pub open spec fn event_ok(ev: InputEvent) -> bool {
    match ev {
        InputEvent::Mouse(me) => 2 * me.row <= u16::MAX,
        InputEvent::Resize(w, h) => (w as int) * (2 * (h as int)) <= usize::MAX,
        _ => true,
    }
}

/// The snapshot as the event phase opens it: the per-frame position list
/// cleared, everything else carried over.
pub open spec fn begin_frame_state(s: StateView) -> StateView {
    StateView { mouse_positions: Seq::empty(), ..s }
}

/// What one event does to the snapshot. Resizes touch the buffers, not
/// the snapshot; unrecognized events are tolerated and change nothing.
pub open spec fn input_step(s: StateView, ev: InputEvent) -> StateView {
    match ev {
        InputEvent::Key(ke) => StateView { keys_down: keys_after(s.keys_down, ke), ..s },
        InputEvent::Mouse(me) => state_after_mouse(s, me),
        InputEvent::Resize(w, h) => s,
        InputEvent::Other => s,
    }
}

/// The snapshot after a whole frame's events, applied in order.
pub open spec fn input_fold(s: StateView, events: Seq<InputEvent>) -> StateView
    decreases events.len(),
{
    if events.len() == 0 {
        s
    } else {
        input_fold(input_step(s, events[0]), events.skip(1))
    }
}

/// The resting-position rule: a frame that visited no mouse position
/// reports the unchanged last known position once, so the visited list is
/// never empty.
pub open spec fn settle_positions(s: StateView) -> StateView {
    if s.mouse_positions.len() == 0 {
        StateView { mouse_positions: seq![s.mouse_position], ..s }
    } else {
        s
    }
}

/// The updates one resize emits: with the display buffer reset to the
/// dirty sentinel and the drawing buffer reset to black, the immediate
/// repaint covers every cell of the new dimensions.
pub open spec fn resize_commit_updates(w: int, th: int) -> Seq<CellUpdate> {
    repaint_updates(
        grid_const(w, 2 * th, Pixel::spec_black()),
        grid_const(w, 2 * th, Pixel::spec_dirty()),
        w,
        th,
    )
}

/// Everything the event phase itself emits: the full repaint of each
/// resize event, in order.
pub open spec fn resize_outputs(events: Seq<InputEvent>) -> Seq<CellUpdate>
    decreases events.len(),
{
    if events.len() == 0 {
        Seq::empty()
    } else {
        (match events[0] {
            InputEvent::Resize(w, h) => resize_commit_updates(w as int, h as int),
            _ => Seq::empty(),
        }) + resize_outputs(events.skip(1))
    }
}

/// The dimensions of the last resize event of the frame, if any: the
/// dimensions both buffers end the frame with.
pub open spec fn last_resize(events: Seq<InputEvent>) -> Option<(u16, u16)>
    decreases events.len(),
{
    if events.len() == 0 {
        Option::None
    } else {
        let rest = last_resize(events.skip(1));
        if rest is Some {
            rest
        } else {
            match events[0] {
                InputEvent::Resize(w, h) => Option::Some((w, h)),
                _ => Option::None,
            }
        }
    }
}

/// Folding one more event at the end steps the fold once.
pub proof fn lemma_input_fold_push(s: StateView, events: Seq<InputEvent>, ev: InputEvent)
    ensures
        input_fold(s, events.push(ev)) == input_step(input_fold(s, events), ev),
    decreases events.len(),
{
    if events.len() == 0 {
        assert(events.push(ev)[0] == ev);
        assert(events.push(ev).skip(1) =~= Seq::empty());
        assert(input_fold(s, events.push(ev)) == input_fold(
            input_step(s, ev),
            events.push(ev).skip(1),
        ));
        assert(input_fold(s, events) == s);
    } else {
        assert(events.push(ev)[0] == events[0]);
        assert(events.push(ev).skip(1) =~= events.skip(1).push(ev));
        assert(input_fold(s, events.push(ev)) == input_fold(
            input_step(s, events[0]),
            events.skip(1).push(ev),
        ));
        lemma_input_fold_push(input_step(s, events[0]), events.skip(1), ev);
        assert(input_fold(s, events) == input_fold(input_step(s, events[0]), events.skip(1)));
    }
}

/// One more event at the end appends that event's own output.
pub proof fn lemma_resize_outputs_push(events: Seq<InputEvent>, ev: InputEvent)
    ensures
        resize_outputs(events.push(ev)) == resize_outputs(events) + (match ev {
            InputEvent::Resize(w, h) => resize_commit_updates(w as int, h as int),
            _ => Seq::<CellUpdate>::empty(),
        }),
    decreases events.len(),
{
    if events.len() == 0 {
        assert(events.push(ev)[0] == ev);
        assert(events.push(ev).skip(1) =~= Seq::empty());
        assert(resize_outputs(events.push(ev)) == (match ev {
            InputEvent::Resize(w, h) => resize_commit_updates(w as int, h as int),
            _ => Seq::<CellUpdate>::empty(),
        }) + resize_outputs(events.push(ev).skip(1)));
        assert(resize_outputs(events.push(ev)) =~= resize_outputs(events) + (match ev {
            InputEvent::Resize(w, h) => resize_commit_updates(w as int, h as int),
            _ => Seq::<CellUpdate>::empty(),
        }));
    } else {
        assert(events.push(ev)[0] == events[0]);
        assert(events.push(ev).skip(1) =~= events.skip(1).push(ev));
        assert(resize_outputs(events.push(ev)) == (match events[0] {
            InputEvent::Resize(w, h) => resize_commit_updates(w as int, h as int),
            _ => Seq::<CellUpdate>::empty(),
        }) + resize_outputs(events.skip(1).push(ev)));
        lemma_resize_outputs_push(events.skip(1), ev);
        assert(resize_outputs(events.push(ev)) =~= resize_outputs(events) + (match ev {
            InputEvent::Resize(w, h) => resize_commit_updates(w as int, h as int),
            _ => Seq::<CellUpdate>::empty(),
        }));
    }
}

/// One more event at the end becomes the last resize when it is one, and
/// leaves the last resize alone otherwise.
pub proof fn lemma_last_resize_push(events: Seq<InputEvent>, ev: InputEvent)
    ensures
        last_resize(events.push(ev)) == (match ev {
            InputEvent::Resize(w, h) => Option::Some((w, h)),
            _ => last_resize(events),
        }),
    decreases events.len(),
{
    if events.len() == 0 {
        assert(events.push(ev)[0] == ev);
        assert(events.push(ev).skip(1) =~= Seq::empty());
        assert(last_resize(events.push(ev).skip(1)) is None);
    } else {
        assert(events.push(ev)[0] == events[0]);
        assert(events.push(ev).skip(1) =~= events.skip(1).push(ev));
        lemma_last_resize_push(events.skip(1), ev);
        assert(last_resize(events.push(ev)) == (if last_resize(events.skip(1).push(ev)) is Some {
            last_resize(events.skip(1).push(ev))
        } else {
            match events[0] {
                InputEvent::Resize(w, h) => Option::<(u16, u16)>::Some((w, h)),
                _ => Option::<(u16, u16)>::None,
            }
        }));
    }
}

/// Whether an event visits a mouse position: a move or a drag.
pub open spec fn is_mouse_move(ev: InputEvent) -> bool {
    match ev {
        InputEvent::Mouse(me) => me.kind is Moved || me.kind is Drag,
        _ => false,
    }
}

/// Events that visit no mouse position leave both the last known
/// position and the visited list alone.
proof fn lemma_fold_without_moves(s: StateView, events: Seq<InputEvent>)
    requires
        forall|i: int| 0 <= i < events.len() ==> !is_mouse_move(#[trigger] events[i]),
    ensures
        input_fold(s, events).mouse_position == s.mouse_position,
        input_fold(s, events).mouse_positions == s.mouse_positions,
    decreases events.len(),
{
    if events.len() == 0 {
    } else {
        assert(!is_mouse_move(events[0]));
        assert forall|i: int| 0 <= i < events.skip(1).len() implies !is_mouse_move(
            #[trigger] events.skip(1)[i],
        ) by {
            assert(events.skip(1)[i] == events[i + 1]);
        }
        lemma_fold_without_moves(input_step(s, events[0]), events.skip(1));
    }
}

/// The visited-position list is never empty once the resting-position
/// rule has run: a frame with zero mouse-move events reports exactly the
/// unchanged last known position, once.
pub proof fn lemma_positions_never_empty(s: StateView, events: Seq<InputEvent>)
    requires
        forall|i: int| 0 <= i < events.len() ==> !is_mouse_move(#[trigger] events[i]),
    ensures
        settle_positions(input_fold(begin_frame_state(s), events)).mouse_positions == seq![
            s.mouse_position,
        ],
{
    lemma_fold_without_moves(begin_frame_state(s), events);
}

/// Whatever the frame's events were, the settled visited-position list
/// holds at least one position.
pub proof fn lemma_settled_positions_nonempty(s: StateView)
    ensures
        settle_positions(s).mouse_positions.len() >= 1,
{
}

/// A frame without resize events emits nothing in its event phase.
pub proof fn lemma_no_resize_no_outputs(events: Seq<InputEvent>)
    requires
        last_resize(events) is None,
    ensures
        resize_outputs(events) == Seq::<CellUpdate>::empty(),
    decreases events.len(),
{
    if events.len() == 0 {
    } else {
        lemma_no_resize_no_outputs(events.skip(1));
        assert(resize_outputs(events) =~= Seq::<CellUpdate>::empty());
    }
}

impl Context {
    /// The resize handling: both buffers take the new dimensions, the
    /// display buffer resets to the dirty sentinel and the drawing buffer
    /// to black, and an immediate repaint runs so the terminal never
    /// shows stale content at the new size. Returns that repaint's
    /// updates, which cover every cell.
    pub fn handle_resize_event(&mut self, width: u16, height: u16) -> (updates: Vec<CellUpdate>)
        requires
            old(self).wf(),
            (width as int) * (2 * (height as int)) <= usize::MAX,
        ensures
            final(self).wf(),
            final(self).spec_width() == width,
            final(self).spec_height() == 2 * (height as int),
            final(self)@ == (ContextView {
                drawing: grid_const(width as int, 2 * (height as int), Pixel::spec_black()),
                display: grid_const(width as int, 2 * (height as int), Pixel::spec_black()),
                ..old(self)@
            }),
            updates@ == resize_commit_updates(width as int, height as int),
    {
        let w: usize = width as usize;
        let h: usize = (height as usize) * 2;
        self.display_buffer = Vec2d::new_with(w, h, Pixel::dirty());
        self.drawing_buffer = Vec2d::new_with(w, h, Pixel::black());
        self.commit_drawing_buffer_to_display()
    }

    /// The event phase of a frame: copies the current snapshot into the
    /// previous one, clears the visited-position list, applies every
    /// decoded event in order (resizes reshape the buffers at once, not
    /// deferred), and finally applies the resting-position rule. Returns
    /// whatever the resize repaints emitted, in order.
    pub fn handle_events(&mut self, events: &Vec<InputEvent>) -> (updates: Vec<CellUpdate>)
        requires
            old(self).wf(),
            forall|i: int| 0 <= i < events@.len() ==> event_ok(#[trigger] events@[i]),
        ensures
            final(self).wf(),
            final(self)@.previous == old(self)@.current,
            final(self)@.current == settle_positions(
                input_fold(begin_frame_state(old(self)@.current), events@),
            ),
            final(self)@.target_fps == old(self)@.target_fps,
            final(self)@.exit_key_combo == old(self)@.exit_key_combo,
            updates@ == resize_outputs(events@),
            match last_resize(events@) {
                Option::None => {
                    &&& final(self).spec_width() == old(self).spec_width()
                    &&& final(self).spec_height() == old(self).spec_height()
                    &&& final(self)@.drawing == old(self)@.drawing
                    &&& final(self)@.display == old(self)@.display
                },
                Option::Some((w, h)) => {
                    &&& final(self).spec_width() == w
                    &&& final(self).spec_height() == 2 * (h as int)
                    &&& final(self)@.drawing == grid_const(
                        w as int,
                        2 * (h as int),
                        Pixel::spec_black(),
                    )
                    &&& final(self)@.display == final(self)@.drawing
                },
            },
    {
        self.previous_state = self.current_state.clone();
        self.current_state.mouse_positions = Vec::new();
        let ghost s0 = begin_frame_state(old(self)@.current);
        let mut updates: Vec<CellUpdate> = Vec::new();
        let n = events.len();
        let mut i: usize = 0;
        while i < n
            invariant
                self.wf(),
                n == events@.len(),
                i <= n,
                forall|j: int| 0 <= j < events@.len() ==> event_ok(#[trigger] events@[j]),
                s0 == begin_frame_state(old(self)@.current),
                self@.previous == old(self)@.current,
                self@.current == input_fold(s0, events@.take(i as int)),
                self@.target_fps == old(self)@.target_fps,
                self@.exit_key_combo == old(self)@.exit_key_combo,
                updates@ == resize_outputs(events@.take(i as int)),
                match last_resize(events@.take(i as int)) {
                    Option::None => {
                        &&& self.spec_width() == old(self).spec_width()
                        &&& self.spec_height() == old(self).spec_height()
                        &&& self@.drawing == old(self)@.drawing
                        &&& self@.display == old(self)@.display
                    },
                    Option::Some((w, h)) => {
                        &&& self.spec_width() == w
                        &&& self.spec_height() == 2 * (h as int)
                        &&& self@.drawing == grid_const(
                            w as int,
                            2 * (h as int),
                            Pixel::spec_black(),
                        )
                        &&& self@.display == self@.drawing
                    },
                },
            decreases n - i,
        {
            let ghost prefix = events@.take(i as int);
            let ev = events[i];
            proof {
                assert(events@.take(i + 1) =~= prefix.push(ev));
                lemma_input_fold_push(s0, prefix, ev);
                lemma_resize_outputs_push(prefix, ev);
                lemma_last_resize_push(prefix, ev);
            }
            match ev {
                InputEvent::Key(ke) => {
                    self.handle_keyboard_event(ke);
                },
                InputEvent::Mouse(me) => {
                    self.handle_mouse_event(me);
                },
                InputEvent::Resize(w, h) => {
                    let mut ups = self.handle_resize_event(w, h);
                    updates.append(&mut ups);
                },
                InputEvent::Other => {},
            }
            i = i + 1;
        }
        proof {
            assert(events@.take(n as int) =~= events@);
        }
        if self.current_state.mouse_positions.len() == 0 {
            let p = self.current_state.mouse_position;
            self.current_state.mouse_positions.push(p);
            proof {
                assert(self.current_state.mouse_positions@ =~= seq![p]);
            }
        }
        updates
    }
}

} // verus!
