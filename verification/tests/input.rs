//! The per-frame input-state machine: key mapping, edge queries derived
//! from two consecutive snapshots, mouse positions, and the exit combo.

use teremder::Context;
use teremder::InputEvent;
use teremder::Key;
use teremder::KeyAction;
use teremder::KeyCodeInfo;
use teremder::KeyEventInfo;
use teremder::ModifierKey;
use teremder::MouseButton;
use teremder::MouseEventInfo;
use teremder::MouseEventKind;

fn press(c: char) -> InputEvent {
    InputEvent::Key(KeyEventInfo { code: KeyCodeInfo::Char(c), kind: KeyAction::Press })
}

fn release(c: char) -> InputEvent {
    InputEvent::Key(KeyEventInfo { code: KeyCodeInfo::Char(c), kind: KeyAction::Release })
}

#[test]
fn char_codes_map_to_keys() {
    assert_eq!(Key::from_code(&KeyCodeInfo::Char('a')), Key::A);
    assert_eq!(Key::from_code(&KeyCodeInfo::Char('z')), Key::Z);
    assert_eq!(Key::from_code(&KeyCodeInfo::Char('0')), Key::Num0);
    assert_eq!(Key::from_code(&KeyCodeInfo::Char('5')), Key::Num5);
    assert_eq!(Key::from_code(&KeyCodeInfo::Char(' ')), Key::Space);
    assert_eq!(Key::from_code(&KeyCodeInfo::Char('%')), Key::Unknown);
    assert_eq!(Key::from_code(&KeyCodeInfo::Char('A')), Key::Unknown);
}

#[test]
fn modifier_codes_map_to_keys() {
    assert_eq!(Key::from_code(&KeyCodeInfo::Modifier(ModifierKey::LeftShift)), Key::LeftShift);
    assert_eq!(Key::from_code(&KeyCodeInfo::Modifier(ModifierKey::RightControl)), Key::RightControl);
    assert_eq!(Key::from_code(&KeyCodeInfo::Modifier(ModifierKey::Other)), Key::Unknown);
    assert_eq!(Key::from_code(&KeyCodeInfo::Other), Key::Unknown);
}

#[test]
fn key_edges_across_frames() {
    let mut ctx = Context::new(4, 2, 0);
    // Frame 1: 'a' goes down.
    ctx.handle_events(&vec![press('a')]);
    assert!(ctx.is_key_down(Key::A));
    assert!(ctx.is_key_pressed(Key::A));
    assert!(!ctx.is_key_released(Key::A));
    // Frame 2: 'a' stays down - no longer an edge.
    ctx.handle_events(&vec![]);
    assert!(ctx.is_key_down(Key::A));
    assert!(!ctx.is_key_pressed(Key::A));
    assert!(!ctx.is_key_released(Key::A));
    // Frame 3: 'a' comes up.
    ctx.handle_events(&vec![release('a')]);
    assert!(!ctx.is_key_down(Key::A));
    assert!(!ctx.is_key_pressed(Key::A));
    assert!(ctx.is_key_released(Key::A));
    // Frame 4: quiet again.
    ctx.handle_events(&vec![]);
    assert!(!ctx.is_key_down(Key::A));
    assert!(!ctx.is_key_pressed(Key::A));
    assert!(!ctx.is_key_released(Key::A));
}

#[test]
fn repeat_counts_as_down() {
    let mut ctx = Context::new(4, 2, 0);
    ctx.handle_events(&vec![InputEvent::Key(KeyEventInfo {
        code: KeyCodeInfo::Char('x'),
        kind: KeyAction::Repeat,
    })]);
    assert!(ctx.is_key_down(Key::X));
}

#[test]
fn press_and_release_in_one_frame() {
    let mut ctx = Context::new(4, 2, 0);
    ctx.handle_events(&vec![press('q'), release('q')]);
    assert!(!ctx.is_key_down(Key::Q));
    assert!(!ctx.is_key_pressed(Key::Q));
    assert!(!ctx.is_key_released(Key::Q));
}

#[test]
fn mouse_button_edges() {
    let mut ctx = Context::new(4, 2, 0);
    let down = InputEvent::Mouse(MouseEventInfo {
        kind: MouseEventKind::Down(MouseButton::Left),
        column: 0,
        row: 0,
    });
    let up = InputEvent::Mouse(MouseEventInfo {
        kind: MouseEventKind::Up(MouseButton::Left),
        column: 0,
        row: 0,
    });
    ctx.handle_events(&vec![down]);
    assert!(ctx.is_mouse_button_down(MouseButton::Left));
    assert!(ctx.is_mouse_button_pressed(MouseButton::Left));
    assert!(!ctx.is_mouse_button_released(MouseButton::Left));
    assert!(!ctx.is_mouse_button_down(MouseButton::Right));
    ctx.handle_events(&vec![up]);
    assert!(!ctx.is_mouse_button_down(MouseButton::Left));
    assert!(ctx.is_mouse_button_released(MouseButton::Left));
}

#[test]
fn moves_double_the_row_and_accumulate() {
    let mut ctx = Context::new(8, 4, 0);
    let mv = |col: u16, row: u16| {
        InputEvent::Mouse(MouseEventInfo { kind: MouseEventKind::Moved, column: col, row })
    };
    ctx.handle_events(&vec![mv(3, 2), mv(5, 1)]);
    assert_eq!(ctx.mouse_position(), (5, 2));
    assert_eq!(ctx.mouse_positions().as_slice(), &[(3, 4), (5, 2)]);
}

#[test]
fn drag_presses_and_moves() {
    let mut ctx = Context::new(8, 4, 0);
    let drag = InputEvent::Mouse(MouseEventInfo {
        kind: MouseEventKind::Drag(MouseButton::Middle),
        column: 2,
        row: 3,
    });
    ctx.handle_events(&vec![drag]);
    assert!(ctx.is_mouse_button_down(MouseButton::Middle));
    assert_eq!(ctx.mouse_position(), (2, 6));
    assert_eq!(ctx.mouse_positions().as_slice(), &[(2, 6)]);
}

#[test]
fn quiet_frame_reports_resting_position() {
    let mut ctx = Context::new(8, 4, 0);
    let mv = InputEvent::Mouse(MouseEventInfo { kind: MouseEventKind::Moved, column: 6, row: 1 });
    ctx.handle_events(&vec![mv]);
    assert_eq!(ctx.mouse_positions().as_slice(), &[(6, 2)]);
    // Next frame has no moves: the resting position is reported once.
    ctx.handle_events(&vec![press('a')]);
    assert_eq!(ctx.mouse_positions().as_slice(), &[(6, 2)]);
    assert_eq!(ctx.mouse_position(), (6, 2));
}

#[test]
fn unhandled_mouse_kind_is_tolerated() {
    let mut ctx = Context::new(8, 4, 0);
    let odd = InputEvent::Mouse(MouseEventInfo { kind: MouseEventKind::Other, column: 7, row: 3 });
    ctx.handle_events(&vec![odd]);
    assert_eq!(ctx.mouse_position(), (0, 0));
    assert!(!ctx.is_mouse_button_down(MouseButton::Left));
}

#[test]
fn exit_combo_fires_on_superset() {
    let mut ctx = Context::new(4, 2, 0);
    ctx.set_exit_key_combo(&vec![Key::A, Key::B]);
    ctx.handle_events(&vec![press('a'), press('b'), press('c')]);
    assert!(ctx.check_exit_key_combo());
}

#[test]
fn exit_combo_holds_back_on_partial_set() {
    let mut ctx = Context::new(4, 2, 0);
    ctx.set_exit_key_combo(&vec![Key::A, Key::B]);
    ctx.handle_events(&vec![press('a'), press('c')]);
    assert!(!ctx.check_exit_key_combo());
}

#[test]
fn default_combo_is_control_c() {
    let mut ctx = Context::new(4, 2, 0);
    ctx.handle_events(&vec![
        InputEvent::Key(KeyEventInfo {
            code: KeyCodeInfo::Modifier(ModifierKey::LeftControl),
            kind: KeyAction::Press,
        }),
        press('c'),
    ]);
    assert!(ctx.check_exit_key_combo());
}

#[test]
fn combo_accepts_repeated_keys() {
    let mut ctx = Context::new(4, 2, 0);
    ctx.set_exit_key_combo(&vec![Key::Z, Key::Z]);
    ctx.handle_events(&vec![press('z')]);
    assert!(ctx.check_exit_key_combo());
}

#[test]
fn empty_combo_always_fires() {
    let mut ctx = Context::new(4, 2, 0);
    ctx.set_exit_key_combo(&vec![]);
    ctx.handle_events(&vec![]);
    assert!(ctx.check_exit_key_combo());
}
