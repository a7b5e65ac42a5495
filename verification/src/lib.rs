//! A terminal pixel-graphics engine: a double-buffered, diff-based repaint
//! core that maps a pixel grid onto terminal cells through the half-block
//! glyph trick, a per-frame input-state machine with down/pressed/released
//! edge queries, and a frame governor that paces the loop to a target rate.
//!
//! The crate holds the engine's state and decisions only. Reading terminal
//! events, emitting escape sequences and sleeping are left to the caller,
//! which hands in plain values (decoded events, a clock reading) and carries
//! out what comes back (cell updates to draw, a duration to sleep).

use vstd::prelude::*;

mod color;
mod drawing;
mod events;
mod keyboard;
mod keyset;
mod mouse;
mod sprite;
mod vec2d;

pub use color::Color;
pub use color::Pixel;
pub use drawing::CellUpdate;
pub use drawing::cell_changed;
pub use drawing::diff_prefix;
pub use drawing::repaint_updates;
pub use events::InputEvent;
pub use events::begin_frame_state;
pub use events::event_ok;
pub use events::input_fold;
pub use events::input_step;
pub use events::last_resize;
pub use events::resize_commit_updates;
pub use events::resize_outputs;
pub use events::settle_positions;
pub use drawing::in_circle;
pub use drawing::in_triangle;
pub use drawing::tri_area2;
pub use drawing::update_at;
pub use keyboard::Key;
pub use keyboard::KeyAction;
pub use keyboard::KeyCodeInfo;
pub use keyboard::KeyEventInfo;
pub use keyboard::keys_after;
pub use keyboard::ModifierKey;
pub use keyboard::key_index;
pub use keyset::KeySet;
pub use mouse::ButtonSet;
pub use mouse::MouseButton;
pub use mouse::MouseEventInfo;
pub use mouse::MouseEventKind;
pub use mouse::button_index;
pub use mouse::event_position;
pub use mouse::state_after_mouse;
pub use sprite::Sprite;
pub use vec2d::Vec2d;
pub use vec2d::grid_const;

verus! {

/// One frame's input snapshot: the last known mouse position, every mouse
/// position visited this frame in order, the buttons and keys currently
/// down, and the frame's timestamp.
pub struct State {
    pub mouse_position: (u16, u16),
    pub mouse_positions: Vec<(u16, u16)>,
    pub mouse_buttons: ButtonSet,
    pub keys_down: KeySet,
    pub time_micros: u64,
}

/// The mathematical shape of a frame snapshot.
pub struct StateView {
    pub mouse_position: (u16, u16),
    pub mouse_positions: Seq<(u16, u16)>,
    pub mouse_buttons: Set<MouseButton>,
    pub keys_down: Set<Key>,
    pub time_micros: u64,
}

impl View for State {
    type V = StateView;

    open spec fn view(&self) -> StateView {
        StateView {
            mouse_position: self.mouse_position,
            mouse_positions: self.mouse_positions@,
            mouse_buttons: self.mouse_buttons@,
            keys_down: self.keys_down@,
            time_micros: self.time_micros,
        }
    }
}

impl State {
    /// The snapshot a fresh context starts from: the mouse resting at the
    /// origin, nothing visited, nothing held down.
    pub open spec fn initial(now_micros: u64) -> StateView {
        StateView {
            mouse_position: (0u16, 0u16),
            mouse_positions: Seq::empty(),
            mouse_buttons: Set::empty(),
            keys_down: Set::empty(),
            time_micros: now_micros,
        }
    }

    /// A fresh snapshot stamped with `now_micros`.
    pub fn new(now_micros: u64) -> (s: State)
        ensures
            s.keys_down.wf(),
            s@ == State::initial(now_micros),
    {
        State {
            mouse_position: (0, 0),
            mouse_positions: Vec::new(),
            mouse_buttons: ButtonSet::empty(),
            keys_down: KeySet::empty(),
            time_micros: now_micros,
        }
    }

}

impl Clone for State {
    /// A field-for-field copy of the snapshot.
    fn clone(&self) -> (s: State)
        ensures
            s@ == self@,
            s.keys_down.wf() == self.keys_down.wf(),
    {
        let mut positions: Vec<(u16, u16)> = Vec::new();
        let n = self.mouse_positions.len();
        let mut i: usize = 0;
        while i < n
            invariant
                i <= n,
                n == self.mouse_positions@.len(),
                positions@ == self.mouse_positions@.take(i as int),
            decreases n - i,
        {
            positions.push(self.mouse_positions[i]);
            proof {
                assert(positions@ =~= self.mouse_positions@.take(i + 1));
            }
            i = i + 1;
        }
        proof {
            assert(self.mouse_positions@.take(n as int) =~= self.mouse_positions@);
        }
        State {
            mouse_position: self.mouse_position,
            mouse_positions: positions,
            mouse_buttons: self.mouse_buttons,
            keys_down: self.keys_down,
            time_micros: self.time_micros,
        }
    }
}

/// Everything one frame hands back to the caller: the cell updates to
/// draw (in order, then one flush), whether the exit combo fired, and how
/// long to sleep to hold the target frame rate.
pub struct FrameOutput {
    pub updates: Vec<CellUpdate>,
    pub exit: bool,
    pub sleep_micros: u64,
}

/// The engine: both pixel buffers, the previous and current input
/// snapshots, the target frame rate and the exit combo.
pub struct Context {
    pub display_buffer: Vec2d<Pixel>,
    pub drawing_buffer: Vec2d<Pixel>,
    pub previous_state: State,
    pub current_state: State,
    pub target_fps: u16,
    pub exit_key_combo: KeySet,
}

/// The mathematical shape of the whole engine state.
pub struct ContextView {
    pub display: Seq<Seq<Pixel>>,
    pub drawing: Seq<Seq<Pixel>>,
    pub previous: StateView,
    pub current: StateView,
    pub target_fps: u16,
    pub exit_key_combo: Set<Key>,
}

impl View for Context {
    type V = ContextView;

    open spec fn view(&self) -> ContextView {
        ContextView {
            display: self.display_buffer@,
            drawing: self.drawing_buffer@,
            previous: self.previous_state@,
            current: self.current_state@,
            target_fps: self.target_fps,
            exit_key_combo: self.exit_key_combo@,
        }
    }
}

impl Context {
    /// Both buffers share one shape: `spec_width` columns and an even
    /// `spec_height` of pixel rows, two per terminal row, with both
    /// terminal dimensions fitting a `u16`.
    pub open spec fn wf(self) -> bool {
        &&& self.display_buffer.wf()
        &&& self.drawing_buffer.wf()
        &&& self.display_buffer.spec_width() == self.drawing_buffer.spec_width()
        &&& self.display_buffer.spec_height() == self.drawing_buffer.spec_height()
        &&& self.drawing_buffer.spec_width() <= u16::MAX
        &&& self.drawing_buffer.spec_height() % 2 == 0
        &&& self.drawing_buffer.spec_height() <= 2 * (u16::MAX as int)
        &&& self.previous_state.keys_down.wf()
        &&& self.current_state.keys_down.wf()
        &&& self.exit_key_combo.wf()
    }

    /// The pixel-buffer width, in pixels (and terminal columns).
    pub open spec fn spec_width(self) -> usize {
        self.drawing_buffer.spec_width()
    }

    /// The pixel-buffer height, in pixels: twice the terminal row count.
    pub open spec fn spec_height(self) -> usize {
        self.drawing_buffer.spec_height()
    }

    /// A fresh engine for a terminal of `width` columns and `height` rows:
    /// the drawing buffer starts all black, the display buffer is seeded
    /// with the dirty sentinel so the first repaint covers every cell, no
    /// key or button is down, and the exit combo defaults to left control
    /// plus C.
    pub fn new(width: u16, height: u16, now_micros: u64) -> (ctx: Context)
        requires
            (width as int) * (2 * (height as int)) <= usize::MAX,
        ensures
            ctx.wf(),
            ctx.spec_width() == width,
            ctx.spec_height() == 2 * (height as int),
            ctx@.drawing == grid_const(width as int, 2 * (height as int), Pixel::spec_black()),
            ctx@.display == grid_const(width as int, 2 * (height as int), Pixel::spec_dirty()),
            ctx@.previous == State::initial(now_micros),
            ctx@.current == State::initial(now_micros),
            ctx@.target_fps == u16::MAX,
            ctx@.exit_key_combo == set![Key::LeftControl, Key::C],
    {
        let w: usize = width as usize;
        let h: usize = (height as usize) * 2;
        let display_buffer = Vec2d::new_with(w, h, Pixel::dirty());
        let drawing_buffer = Vec2d::new_with(w, h, Pixel::black());
        let mut exit_key_combo = KeySet::empty();
        exit_key_combo.insert(Key::LeftControl);
        exit_key_combo.insert(Key::C);
        Context {
            display_buffer,
            drawing_buffer,
            previous_state: State::new(now_micros),
            current_state: State::new(now_micros),
            target_fps: u16::MAX,
            exit_key_combo,
        }
    }

    /// The terminal width, in columns.
    pub fn width(&self) -> (w: u16)
        requires
            self.wf(),
        ensures
            w == self.spec_width(),
    {
        self.display_buffer.width() as u16
    }

    /// The terminal height, in rows: half the pixel-buffer height.
    pub fn height(&self) -> (h: u16)
        requires
            self.wf(),
        ensures
            h == self.spec_height() / 2,
    {
        (self.display_buffer.height() / 2) as u16
    }

    /// The logical screen width the drawing API addresses, in pixels.
    pub fn screen_width(&self) -> (w: usize)
        ensures
            w == self.spec_width(),
    {
        self.drawing_buffer.width()
    }

    /// The logical screen height the drawing API addresses, in pixels.
    pub fn screen_height(&self) -> (h: usize)
        ensures
            h == self.spec_height(),
    {
        self.drawing_buffer.height()
    }

    /// Whether the exit combo is held: every key of the combo is down in
    /// the current frame.
    pub fn check_exit_key_combo(&self) -> (r: bool)
        requires
            self.wf(),
        ensures
            r == self@.exit_key_combo.subset_of(self@.current.keys_down),
    {
        self.current_state.keys_down.contains_all(&self.exit_key_combo)
    }

    /// The exit-combo law, in the terms of `check_exit_key_combo`: a
    /// combo of two keys fires when both are down, whatever else is held,
    /// and does not fire while one of them is missing.
    pub proof fn lemma_exit_combo(a: Key, b: Key, c: Key)
        requires
            b != a,
            b != c,
        ensures
            set![a, b].subset_of(set![a, b, c]),
            !set![a, b].subset_of(set![a, c]),
    {
        assert(set![a, b].contains(b));
        assert(!set![a, c].contains(b));
    }

    /// Replaces the exit combo with the listed keys.
    pub fn set_exit_key_combo(&mut self, keys: &Vec<Key>)
        requires
            old(self).wf(),
        ensures
            final(self).wf(),
            final(self).spec_width() == old(self).spec_width(),
            final(self).spec_height() == old(self).spec_height(),
            final(self)@ == (ContextView {
                exit_key_combo: Set::new(|k: Key| keys@.contains(k)),
                ..old(self)@
            }),
    {
        self.exit_key_combo = KeySet::from_keys(keys);
    }

    /// Sets the target frame rate. A target of zero is accepted here and
    /// rejected by the frame governor, which fails fast on it.
    pub fn set_target_fps(&mut self, fps: u16)
        requires
            old(self).wf(),
        ensures
            final(self).wf(),
            final(self).spec_width() == old(self).spec_width(),
            final(self).spec_height() == old(self).spec_height(),
            final(self)@ == (ContextView { target_fps: fps, ..old(self)@ }),
    {
        self.target_fps = fps;
    }

    /// One whole frame, after the application has painted: the event
    /// phase folds the frame's decoded events into the snapshots (with
    /// resizes reshaping the buffers at once), the exit combo is checked
    /// against the new key set, the repaint reconciles the display buffer
    /// with the drawing buffer, and the frame governor stamps the clock
    /// reading and computes the sleep. The caller draws the updates in
    /// order, flushes once, exits when `exit` is set, and sleeps
    /// `sleep_micros`.
    pub fn next_frame(&mut self, events: &Vec<InputEvent>, now_micros: u64) -> (out: FrameOutput)
        requires
            old(self).wf(),
            old(self)@.target_fps > 0,
            now_micros >= old(self)@.current.time_micros,
            forall|i: int| 0 <= i < events@.len() ==> event_ok(#[trigger] events@[i]),
        ensures
            final(self).wf(),
            final(self)@.previous == old(self)@.current,
            final(self)@.current == (StateView {
                time_micros: now_micros,
                ..settle_positions(input_fold(begin_frame_state(old(self)@.current), events@))
            }),
            final(self)@.target_fps == old(self)@.target_fps,
            final(self)@.exit_key_combo == old(self)@.exit_key_combo,
            final(self)@.display == final(self)@.drawing,
            out.exit == old(self)@.exit_key_combo.subset_of(
                input_fold(begin_frame_state(old(self)@.current), events@).keys_down,
            ),
            out.sleep_micros == Context::spec_sleep_micros(
                old(self)@.target_fps,
                old(self)@.current.time_micros,
                now_micros,
            ),
            match last_resize(events@) {
                Option::None => {
                    &&& final(self).spec_width() == old(self).spec_width()
                    &&& final(self).spec_height() == old(self).spec_height()
                    &&& final(self)@.drawing == old(self)@.drawing
                    &&& out.updates@ == repaint_updates(
                        old(self)@.drawing,
                        old(self)@.display,
                        old(self).spec_width() as int,
                        old(self).spec_height() as int / 2,
                    )
                },
                Option::Some((w, h)) => {
                    &&& final(self).spec_width() == w
                    &&& final(self).spec_height() == 2 * (h as int)
                    &&& final(self)@.drawing == grid_const(
                        w as int,
                        2 * (h as int),
                        Pixel::spec_black(),
                    )
                    &&& out.updates@ == resize_outputs(events@)
                },
            },
    {
        let mut updates = self.handle_events(events);
        let exit = self.check_exit_key_combo();
        let mut commit_updates = self.commit_drawing_buffer_to_display();
        updates.append(&mut commit_updates);
        let sleep_micros = self.cap_fps(now_micros);
        proof {
            match last_resize(events@) {
                Option::None => {
                    events::lemma_no_resize_no_outputs(events@);
                    assert(updates@ =~= repaint_updates(
                        old(self)@.drawing,
                        old(self)@.display,
                        old(self).spec_width() as int,
                        old(self).spec_height() as int / 2,
                    ));
                },
                Option::Some((w, h)) => {
                    drawing::lemma_repaint_idempotent(
                        grid_const(w as int, 2 * (h as int), Pixel::spec_black()),
                        w as int,
                        h as int,
                    );
                    assert(updates@ =~= resize_outputs(events@));
                },
            }
        }
        FrameOutput { updates, exit, sleep_micros }
    }

    /// How long to sleep so the frame that began at the previous snapshot's
    /// timestamp lasts at least the target frame budget.
    pub open spec fn spec_sleep_micros(target_fps: u16, prev_micros: u64, now_micros: u64) -> int {
        let budget = 1_000_000 as int / target_fps as int;
        let elapsed = now_micros - prev_micros;
        if elapsed < budget {
            budget - elapsed
        } else {
            0
        }
    }

    /// The frame governor: measures the time since the previous frame's
    /// timestamp against the target frame budget, stamps `now_micros` into
    /// the current snapshot, and returns how long the caller must sleep
    /// (possibly zero). A zero target rate is a caller error and fails
    /// fast; the clock reading must not run backwards past the previous
    /// stamp.
    pub fn cap_fps(&mut self, now_micros: u64) -> (sleep_micros: u64)
        requires
            old(self).wf(),
            old(self)@.target_fps > 0,
            now_micros >= old(self)@.previous.time_micros,
        ensures
            final(self).wf(),
            final(self).spec_width() == old(self).spec_width(),
            final(self).spec_height() == old(self).spec_height(),
            final(self)@ == (ContextView {
                current: StateView { time_micros: now_micros, ..old(self)@.current },
                ..old(self)@
            }),
            sleep_micros == Context::spec_sleep_micros(
                old(self)@.target_fps,
                old(self)@.previous.time_micros,
                now_micros,
            ),
    {
        let budget: u64 = 1_000_000u64 / (self.target_fps as u64);
        let elapsed: u64 = now_micros - self.previous_state.time_micros;
        let sleep_micros: u64 = if elapsed < budget {
            budget - elapsed
        } else {
            0
        };
        self.current_state.time_micros = now_micros;
        sleep_micros
    }
}

} // verus!
