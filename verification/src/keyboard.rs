//! The keys the input-state machine tracks, and the mapping from decoded
//! terminal key codes onto them. Unrecognized codes collapse to the single
//! `Unknown` sentinel rather than failing.

use vstd::prelude::*;

use crate::Context;
use crate::ContextView;
use crate::StateView;

verus! {

/// A decoded key event: which code, and whether it was pressed, repeated
/// or released.
#[derive(Debug, Clone, Copy, PartialEq, Eq, Structural)]
pub struct KeyEventInfo {
    pub code: KeyCodeInfo,
    pub kind: KeyAction,
}

/// What a key event does to the set of keys held down: press and repeat
/// add the key, release removes it.
pub open spec fn keys_after(keys: Set<Key>, event: KeyEventInfo) -> Set<Key> {
    let k = Key::spec_from_code(event.code);
    match event.kind {
        KeyAction::Press => keys.insert(k),
        KeyAction::Repeat => keys.insert(k),
        KeyAction::Release => keys.remove(k),
    }
}

impl Context {
    /// Applies one key event to the current frame's key set.
    pub fn handle_keyboard_event(&mut self, event: KeyEventInfo)
        requires
            old(self).wf(),
        ensures
            final(self).wf(),
            final(self).spec_width() == old(self).spec_width(),
            final(self).spec_height() == old(self).spec_height(),
            final(self)@ == (ContextView {
                current: StateView {
                    keys_down: keys_after(old(self)@.current.keys_down, event),
                    ..old(self)@.current
                },
                ..old(self)@
            }),
    {
        let key = Key::from_code(&event.code);
        match event.kind {
            KeyAction::Press => self.current_state.keys_down.insert(key),
            KeyAction::Repeat => self.current_state.keys_down.insert(key),
            KeyAction::Release => self.current_state.keys_down.remove(key),
        }
    }

    /// Whether `key` is down in the current frame, as the contracts see
    /// it.
    pub open spec fn spec_is_key_down(self, key: Key) -> bool {
        self@.current.keys_down.contains(key)
    }

    /// Whether `key` went down this frame, as the contracts see it.
    pub open spec fn spec_is_key_pressed(self, key: Key) -> bool {
        self@.current.keys_down.contains(key) && !self@.previous.keys_down.contains(key)
    }

    /// Whether `key` came up this frame, as the contracts see it.
    pub open spec fn spec_is_key_released(self, key: Key) -> bool {
        !self@.current.keys_down.contains(key) && self@.previous.keys_down.contains(key)
    }

    /// Whether `key` is down in the current frame.
    pub fn is_key_down(&self, key: Key) -> (r: bool)
        ensures
            r == self.spec_is_key_down(key),
    {
        self.current_state.keys_down.contains(key)
    }

    /// Whether `key` went down this frame: down now, not down in the
    /// previous frame.
    pub fn is_key_pressed(&self, key: Key) -> (r: bool)
        ensures
            r == self.spec_is_key_pressed(key),
    {
        self.current_state.keys_down.contains(key) && !self.previous_state.keys_down.contains(key)
    }

    /// Whether `key` came up this frame: not down now, down in the
    /// previous frame.
    pub fn is_key_released(&self, key: Key) -> (r: bool)
        ensures
            r == self.spec_is_key_released(key),
    {
        !self.current_state.keys_down.contains(key) && self.previous_state.keys_down.contains(key)
    }
}

/// A key the engine recognizes. Anything else the terminal reports maps to
/// `Unknown`.
#[derive(Debug, Clone, Copy, PartialEq, Eq, Structural)]
pub enum Key {
    Unknown,
    Num0,
    Num1,
    Num2,
    Num3,
    Num4,
    Num5,
    Num6,
    Num7,
    Num8,
    Num9,
    A,
    B,
    C,
    D,
    E,
    F,
    G,
    H,
    I,
    J,
    K,
    L,
    M,
    N,
    O,
    P,
    Q,
    R,
    S,
    T,
    U,
    V,
    W,
    X,
    Y,
    Z,
    LeftShift,
    RightShift,
    LeftControl,
    RightControl,
    Space,
}

/// A modifier key as the terminal reports it. Only the four the engine
/// tracks are told apart; the rest arrive as `Other`.
#[derive(Debug, Clone, Copy, PartialEq, Eq, Structural)]
pub enum ModifierKey {
    LeftShift,
    RightShift,
    LeftControl,
    RightControl,
    Other,
}

/// A decoded terminal key code, reduced to what the engine reads of it: a
/// character, a modifier, or anything else.
#[derive(Debug, Clone, Copy, PartialEq, Eq, Structural)]
pub enum KeyCodeInfo {
    Char(char),
    Modifier(ModifierKey),
    Other,
}

/// What a key transition does to the set of keys held down.
#[derive(Debug, Clone, Copy, PartialEq, Eq, Structural)]
pub enum KeyAction {
    Press,
    Repeat,
    Release,
}

/// The position of each key in the bit set that holds key membership.
pub open spec fn key_index(k: Key) -> u64 {
    match k {
        Key::Unknown => 0u64,
        Key::Num0 => 1u64,
        Key::Num1 => 2u64,
        Key::Num2 => 3u64,
        Key::Num3 => 4u64,
        Key::Num4 => 5u64,
        Key::Num5 => 6u64,
        Key::Num6 => 7u64,
        Key::Num7 => 8u64,
        Key::Num8 => 9u64,
        Key::Num9 => 10u64,
        Key::A => 11u64,
        Key::B => 12u64,
        Key::C => 13u64,
        Key::D => 14u64,
        Key::E => 15u64,
        Key::F => 16u64,
        Key::G => 17u64,
        Key::H => 18u64,
        Key::I => 19u64,
        Key::J => 20u64,
        Key::K => 21u64,
        Key::L => 22u64,
        Key::M => 23u64,
        Key::N => 24u64,
        Key::O => 25u64,
        Key::P => 26u64,
        Key::Q => 27u64,
        Key::R => 28u64,
        Key::S => 29u64,
        Key::T => 30u64,
        Key::U => 31u64,
        Key::V => 32u64,
        Key::W => 33u64,
        Key::X => 34u64,
        Key::Y => 35u64,
        Key::Z => 36u64,
        Key::LeftShift => 37u64,
        Key::RightShift => 38u64,
        Key::LeftControl => 39u64,
        Key::RightControl => 40u64,
        Key::Space => 41u64,
    }
}

/// Every key's index lies below 42.
pub proof fn lemma_key_index_bound(k: Key)
    ensures
        key_index(k) < 42,
{
}

/// Distinct keys occupy distinct bit positions.
pub proof fn lemma_key_index_injective(k1: Key, k2: Key)
    requires
        key_index(k1) == key_index(k2),
    ensures
        k1 == k2,
{
}

impl Key {
    /// The key's bit position, as executable code.
    pub fn index(self) -> (i: u64)
        ensures
            i == key_index(self),
    {
        match self {
            Key::Unknown => 0,
            Key::Num0 => 1,
            Key::Num1 => 2,
            Key::Num2 => 3,
            Key::Num3 => 4,
            Key::Num4 => 5,
            Key::Num5 => 6,
            Key::Num6 => 7,
            Key::Num7 => 8,
            Key::Num8 => 9,
            Key::Num9 => 10,
            Key::A => 11,
            Key::B => 12,
            Key::C => 13,
            Key::D => 14,
            Key::E => 15,
            Key::F => 16,
            Key::G => 17,
            Key::H => 18,
            Key::I => 19,
            Key::J => 20,
            Key::K => 21,
            Key::L => 22,
            Key::M => 23,
            Key::N => 24,
            Key::O => 25,
            Key::P => 26,
            Key::Q => 27,
            Key::R => 28,
            Key::S => 29,
            Key::T => 30,
            Key::U => 31,
            Key::V => 32,
            Key::W => 33,
            Key::X => 34,
            Key::Y => 35,
            Key::Z => 36,
            Key::LeftShift => 37,
            Key::RightShift => 38,
            Key::LeftControl => 39,
            Key::RightControl => 40,
            Key::Space => 41,
        }
    }

    /// The key a decoded terminal code stands for.
    pub open spec fn spec_from_code(code: KeyCodeInfo) -> Key {
        match code {
            KeyCodeInfo::Char(c) => Key::spec_from_char(c),
            KeyCodeInfo::Modifier(m) => match m {
                ModifierKey::LeftShift => Key::LeftShift,
                ModifierKey::RightShift => Key::RightShift,
                ModifierKey::LeftControl => Key::LeftControl,
                ModifierKey::RightControl => Key::RightControl,
                ModifierKey::Other => Key::Unknown,
            },
            KeyCodeInfo::Other => Key::Unknown,
        }
    }

    /// The key a character stands for: the lower-case letters, the digits
    /// and the space map to their keys, everything else to `Unknown`.
    pub open spec fn spec_from_char(c: char) -> Key {
        match c {
            'a' => Key::A,
            'b' => Key::B,
            'c' => Key::C,
            'd' => Key::D,
            'e' => Key::E,
            'f' => Key::F,
            'g' => Key::G,
            'h' => Key::H,
            'i' => Key::I,
            'j' => Key::J,
            'k' => Key::K,
            'l' => Key::L,
            'm' => Key::M,
            'n' => Key::N,
            'o' => Key::O,
            'p' => Key::P,
            'q' => Key::Q,
            'r' => Key::R,
            's' => Key::S,
            't' => Key::T,
            'u' => Key::U,
            'v' => Key::V,
            'w' => Key::W,
            'x' => Key::X,
            'y' => Key::Y,
            'z' => Key::Z,
            ' ' => Key::Space,
            '0' => Key::Num0,
            '1' => Key::Num1,
            '2' => Key::Num2,
            '3' => Key::Num3,
            '4' => Key::Num4,
            '5' => Key::Num5,
            '6' => Key::Num6,
            '7' => Key::Num7,
            '8' => Key::Num8,
            '9' => Key::Num9,
            _ => Key::Unknown,
        }
    }

    /// Maps a decoded terminal key code onto the key it stands for.
    pub fn from_code(code: &KeyCodeInfo) -> (k: Key)
        ensures
            k == Key::spec_from_code(*code),
    {
        match code {
            KeyCodeInfo::Char(c) => match c {
                'a' => Key::A,
                'b' => Key::B,
                'c' => Key::C,
                'd' => Key::D,
                'e' => Key::E,
                'f' => Key::F,
                'g' => Key::G,
                'h' => Key::H,
                'i' => Key::I,
                'j' => Key::J,
                'k' => Key::K,
                'l' => Key::L,
                'm' => Key::M,
                'n' => Key::N,
                'o' => Key::O,
                'p' => Key::P,
                'q' => Key::Q,
                'r' => Key::R,
                's' => Key::S,
                't' => Key::T,
                'u' => Key::U,
                'v' => Key::V,
                'w' => Key::W,
                'x' => Key::X,
                'y' => Key::Y,
                'z' => Key::Z,
                ' ' => Key::Space,
                '0' => Key::Num0,
                '1' => Key::Num1,
                '2' => Key::Num2,
                '3' => Key::Num3,
                '4' => Key::Num4,
                '5' => Key::Num5,
                '6' => Key::Num6,
                '7' => Key::Num7,
                '8' => Key::Num8,
                '9' => Key::Num9,
                _ => Key::Unknown,
            },
            KeyCodeInfo::Modifier(m) => match m {
                ModifierKey::LeftShift => Key::LeftShift,
                ModifierKey::RightShift => Key::RightShift,
                ModifierKey::LeftControl => Key::LeftControl,
                ModifierKey::RightControl => Key::RightControl,
                ModifierKey::Other => Key::Unknown,
            },
            KeyCodeInfo::Other => Key::Unknown,
        }
    }
}

/// The input edge laws, derived purely from the two consecutive
/// snapshots: a key pressed this frame is down; a key released this frame
/// is not down; and no key is pressed and released in the same frame.
pub proof fn lemma_input_edge_laws(ctx: Context, key: Key)
    ensures
        ctx.spec_is_key_pressed(key) ==> ctx.spec_is_key_down(key),
        ctx.spec_is_key_released(key) ==> !ctx.spec_is_key_down(key),
        !(ctx.spec_is_key_pressed(key) && ctx.spec_is_key_released(key)),
{
}

} // verus!
