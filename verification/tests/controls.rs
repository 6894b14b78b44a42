use quant_planet::controls::{frame_sleep_nanos, should_step_physics, texture_extent, Action, InputEvent, Key, WindowSize};

#[test]
fn keys_map_to_steps() {
    let mut size = WindowSize::new(800, 600);
    assert_eq!(size.handle_event(InputEvent::KeyDown(Some(Key::W))), Action::StepForward);
    assert_eq!(size.handle_event(InputEvent::KeyDown(Some(Key::S))), Action::StepBackward);
    assert_eq!(size.handle_event(InputEvent::KeyDown(Some(Key::A))), Action::StepRight);
    assert_eq!(size.handle_event(InputEvent::KeyDown(Some(Key::D))), Action::StepLeft);
    assert_eq!(size.width, 800);
    assert_eq!(size.height, 600);
}

#[test]
fn quit_and_escape_exit() {
    let mut size = WindowSize::new(800, 600);
    assert_eq!(size.handle_event(InputEvent::Quit), Action::Exit);
    assert_eq!(size.handle_event(InputEvent::KeyDown(Some(Key::Escape))), Action::Exit);
}

#[test]
fn other_events_are_ignored() {
    let mut size = WindowSize::new(800, 600);
    assert_eq!(size.handle_event(InputEvent::KeyDown(Some(Key::Other))), Action::Ignore);
    assert_eq!(size.handle_event(InputEvent::KeyDown(None)), Action::Ignore);
    assert_eq!(size.handle_event(InputEvent::Other), Action::Ignore);
    assert_eq!((size.width, size.height), (800, 600));
}

#[test]
fn resize_takes_new_size() {
    let mut size = WindowSize::new(800, 600);
    assert_eq!(size.handle_event(InputEvent::Resized(1024, 768)), Action::Resize);
    assert_eq!((size.width, size.height), (1024, 768));
    assert_eq!(size.mouse_anchor(), (512, 384));
}

#[test]
fn resize_reads_negative_sizes_bit_for_bit() {
    let mut size = WindowSize::new(800, 600);
    assert_eq!(size.handle_event(InputEvent::Resized(-1, -2)), Action::Resize);
    assert_eq!((size.width, size.height), (u32::MAX, u32::MAX - 1));
}

#[test]
fn mouse_anchor_rounds_down() {
    let size = WindowSize::new(801, 3);
    assert_eq!(size.mouse_anchor(), (400, 1));
}

#[test]
fn frame_sleep_at_165_fps() {
    assert_eq!(frame_sleep_nanos(165), 6_060_606);
    assert_eq!(frame_sleep_nanos(1), 1_000_000_000);
}

#[test]
fn texture_extent_swaps_sides() {
    assert_eq!(texture_extent((800, 600)), (150, 200));
    assert_eq!(texture_extent((3, 7)), (1, 0));
}

#[test]
fn physics_steps_only_after_a_full_step() {
    let step = 33_000_000u128;
    assert!(!should_step_physics(0, step));
    assert!(!should_step_physics(step, step));
    assert!(should_step_physics(step + 1, step));
    assert!(should_step_physics(1_000_000_000, step));
}
