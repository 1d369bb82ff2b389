//! Tests of the input translator, the effect partition and the exact
//! device-size arithmetic.

use iced_element::effects::ProgramEffect;
use iced_element::effects::partition_effects;
use iced_element::element::ElementCore;
use iced_element::geometry::CursorPos;
use iced_element::geometry::LogicalSize;
use iced_element::geometry::ScaleFactor;
use iced_element::geometry::scaled_dim;
use iced_element::input::InputEvent;
use iced_element::input::ModifierState;
use iced_element::input::MouseButtonKind;
use iced_element::input::map_button;

fn fresh_element() -> ElementCore<u32> {
    ElementCore::new(LogicalSize { w: 100, h: 100 })
}

fn pos(x: i64, y: i64) -> CursorPos {
    CursorPos { x, y }
}

#[test]
fn pointer_enter_frames_enter_then_move() {
    let mut c = fresh_element();
    let evs = c.pointer_enter(pos(12_000, 34_500));
    assert_eq!(
        evs,
        vec![InputEvent::CursorEntered, InputEvent::CursorMoved(pos(12_000, 34_500))],
    );
    assert_eq!(c.cursor, Some(pos(12_000, 34_500)));
}

#[test]
fn pointer_motion_moves_and_caches() {
    let mut c = fresh_element();
    let evs = c.pointer_motion(pos(1, 2));
    assert_eq!(evs, vec![InputEvent::CursorMoved(pos(1, 2))]);
    assert_eq!(c.cursor, Some(pos(1, 2)));
}

#[test]
fn pointer_leave_keeps_cached_position() {
    let mut c = fresh_element();
    let _ = c.pointer_enter(pos(7, 8));
    let evs = c.pointer_leave();
    assert_eq!(evs, vec![InputEvent::CursorLeft]);
    assert_eq!(c.cursor, Some(pos(7, 8)), "leave deliberately keeps the cached position");
}

#[test]
fn button_mapping_named_codes() {
    assert_eq!(map_button(0x110), MouseButtonKind::Primary);
    assert_eq!(map_button(0x111), MouseButtonKind::Secondary);
    assert_eq!(map_button(0x112), MouseButtonKind::Middle);
}

#[test]
fn button_mapping_other_codes_pass_through() {
    assert_eq!(map_button(0x113), MouseButtonKind::Other(0x13));
    assert_eq!(map_button(0x2a3), MouseButtonKind::Other(0xa3));
    assert_eq!(map_button(0), MouseButtonKind::Other(0));
}

#[test]
fn button_events_press_and_release() {
    let c = fresh_element();
    let evs = c.pointer_button(0x110, true);
    assert_eq!(evs, vec![InputEvent::ButtonPressed(MouseButtonKind::Primary)]);
    let evs = c.pointer_button(0x111, false);
    assert_eq!(evs, vec![InputEvent::ButtonReleased(MouseButtonKind::Secondary)]);
}

#[test]
fn axis_discrete_yields_lines() {
    let c = fresh_element();
    let evs = c.pointer_axis(Some((1, -2)), 15_000, -2_500);
    assert_eq!(evs, vec![InputEvent::WheelLines(1, -2)]);
}

#[test]
fn axis_continuous_yields_pixels() {
    let c = fresh_element();
    let evs = c.pointer_axis(None, 15_000, -2_500);
    assert_eq!(evs, vec![InputEvent::WheelPixels(15_000, -2_500)]);
}

#[test]
fn modifiers_are_tested_independently() {
    let c = fresh_element();
    let evs = c.keyboard_modifiers(true, false, true, false);
    assert_eq!(
        evs,
        vec![InputEvent::ModifiersChanged(ModifierState {
            shift: true,
            alt: false,
            ctrl: true,
            logo: false,
        })],
    );
    let evs = c.keyboard_modifiers(false, true, false, true);
    assert_eq!(
        evs,
        vec![InputEvent::ModifiersChanged(ModifierState {
            shift: false,
            alt: true,
            ctrl: false,
            logo: true,
        })],
    );
}

#[test]
fn activation_events() {
    let c = fresh_element();
    assert_eq!(c.set_activate(true), vec![InputEvent::Focused]);
    assert_eq!(c.set_activate(false), vec![InputEvent::Unfocused]);
}

#[test]
fn keyboard_and_relative_motion_are_stated_gaps() {
    let c = fresh_element();
    assert!(c.keyboard_key().is_empty());
    assert!(c.pointer_relative_motion().is_empty());
}

#[test]
fn partition_keeps_order_within_each_class() {
    let effects: Vec<ProgramEffect<u8, i32>> = vec![
        ProgramEffect::Immediate(-1),
        ProgramEffect::Deferred(10),
        ProgramEffect::Immediate(-2),
        ProgramEffect::Deferred(20),
        ProgramEffect::Deferred(30),
    ];
    let (tasks, actions) = partition_effects(effects);
    assert_eq!(tasks, vec![10, 20, 30]);
    assert_eq!(actions, vec![-1, -2]);
}

#[test]
fn partition_of_nothing_is_nothing() {
    let effects: Vec<ProgramEffect<u8, i32>> = Vec::new();
    let (tasks, actions) = partition_effects(effects);
    assert!(tasks.is_empty());
    assert!(actions.is_empty());
}

#[test]
fn device_size_rounds_up_exactly() {
    // whole scales
    assert_eq!(scaled_dim(100, 1000), 100);
    assert_eq!(scaled_dim(100, 2000), 200);
    // fractional scales round towards positive infinity
    assert_eq!(scaled_dim(101, 1500), 152); // ceil(151.5)
    assert_eq!(scaled_dim(57, 1500), 86); // ceil(85.5)
    assert_eq!(scaled_dim(10, 1250), 13); // ceil(12.5)
    assert_eq!(scaled_dim(3, 1001), 4); // ceil(3.003)
    // zero stays zero; it marks a degenerate dimension
    assert_eq!(scaled_dim(0, 1500), 0);
    // the extremes of the admitted range
    assert_eq!(scaled_dim(65535, 64000), 4_194_240);
    assert_eq!(scaled_dim(1, 1), 1); // ceil(0.001)
}

#[test]
fn whole_scale_factors() {
    assert_eq!(ScaleFactor::from_whole(1), ScaleFactor { units: 1000 });
    assert_eq!(ScaleFactor::from_whole(3), ScaleFactor { units: 3000 });
}
