//! The frame governor and the whole-frame pipeline.

use teremder::Color;
use teremder::Context;
use teremder::InputEvent;
use teremder::Key;
use teremder::KeyAction;
use teremder::KeyCodeInfo;
use teremder::KeyEventInfo;
use teremder::Pixel;

#[test]
fn governor_sleeps_out_the_frame_budget() {
    let mut ctx = Context::new(2, 2, 1_000);
    ctx.set_target_fps(100);
    // Budget 10_000 us; 4_000 elapsed since the previous stamp at 1_000.
    let sleep = ctx.cap_fps(5_000);
    assert_eq!(sleep, 6_000);
    assert_eq!(ctx.current_state.time_micros, 5_000);
}

#[test]
fn governor_skips_sleep_when_late() {
    let mut ctx = Context::new(2, 2, 0);
    ctx.set_target_fps(100);
    let sleep = ctx.cap_fps(50_000);
    assert_eq!(sleep, 0);
    assert_eq!(ctx.current_state.time_micros, 50_000);
}

#[test]
fn governor_defaults_to_uncapped() {
    let mut ctx = Context::new(2, 2, 0);
    // The default target is the largest representable rate: a budget of
    // 1_000_000 / 65535 = 15 microseconds.
    let sleep = ctx.cap_fps(0);
    assert_eq!(sleep, 15);
}

#[test]
fn first_frame_paints_everything() {
    let mut ctx = Context::new(3, 2, 0);
    ctx.set_target_fps(50);
    let out = ctx.next_frame(&vec![], 1_000);
    assert_eq!(out.updates.len(), 6);
    assert!(!out.exit);
    assert_eq!(out.sleep_micros, 19_000);
    let second = ctx.next_frame(&vec![], 21_000);
    assert_eq!(second.updates.len(), 0);
}

#[test]
fn frame_swaps_snapshots_and_stamps_time() {
    let mut ctx = Context::new(3, 2, 0);
    ctx.set_target_fps(1);
    let press_a = InputEvent::Key(KeyEventInfo {
        code: KeyCodeInfo::Char('a'),
        kind: KeyAction::Press,
    });
    let out = ctx.next_frame(&vec![press_a], 100);
    assert!(!out.exit);
    assert!(ctx.is_key_pressed(Key::A));
    assert_eq!(ctx.current_state.time_micros, 100);
    ctx.next_frame(&vec![], 1_000_200);
    assert!(ctx.is_key_down(Key::A));
    assert!(!ctx.is_key_pressed(Key::A));
}

#[test]
fn frame_reports_exit_on_combo() {
    let mut ctx = Context::new(3, 2, 0);
    ctx.set_target_fps(60);
    ctx.set_exit_key_combo(&vec![Key::Q]);
    let press_q = InputEvent::Key(KeyEventInfo {
        code: KeyCodeInfo::Char('q'),
        kind: KeyAction::Press,
    });
    let out = ctx.next_frame(&vec![press_q], 10);
    assert!(out.exit);
}

#[test]
fn resize_mid_frame_forces_full_repaint() {
    let mut ctx = Context::new(6, 3, 0);
    ctx.set_target_fps(60);
    ctx.next_frame(&vec![], 10);
    ctx.clear_background(Color::rgb(5, 5, 5));
    let out = ctx.next_frame(&vec![InputEvent::Resize(4, 2)], 20);
    // The resize repaints all 8 cells of the new size; the drawing reset
    // to black leaves nothing more for the end-of-frame repaint.
    assert_eq!(out.updates.len(), 8);
    for u in &out.updates {
        assert_eq!(u.fg, Pixel::black());
        assert_eq!(u.bg, Pixel::black());
    }
    assert_eq!(ctx.width(), 4);
    assert_eq!(ctx.height(), 2);
    assert_eq!(ctx.screen_width(), 4);
    assert_eq!(ctx.screen_height(), 4);
}

#[test]
fn dimensions_report_pixel_and_terminal_sizes() {
    let ctx = Context::new(11, 7, 0);
    assert_eq!(ctx.width(), 11);
    assert_eq!(ctx.height(), 7);
    assert_eq!(ctx.screen_width(), 11);
    assert_eq!(ctx.screen_height(), 14);
}
