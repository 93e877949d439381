use aim_probe::pointer::{
    map_to_world, mouse_pos_updater, window_resize_handler, MousePosition, ScreenPoint,
    WindowSize,
};

#[test]
fn map_subtracts_half_the_window() {
    let window = WindowSize { width: 100, height: 60 };
    let m = map_to_world(ScreenPoint { x: 10, y: 20 }, &window);
    assert_eq!(m, MousePosition { x: -40, y: -10 });
}

#[test]
fn map_with_odd_dimensions() {
    let window = WindowSize { width: 101, height: 3 };
    let m = map_to_world(ScreenPoint { x: 0, y: 0 }, &window);
    assert_eq!(m, MousePosition { x: -50, y: -1 });
}

#[test]
fn map_does_not_clamp_outside_the_window() {
    let window = WindowSize { width: 100, height: 100 };
    let m = map_to_world(ScreenPoint { x: 2000, y: -300 }, &window);
    assert_eq!(m, MousePosition { x: 1950, y: -350 });
}

#[test]
fn pointer_is_sticky_without_samples() {
    let window = WindowSize { width: 100, height: 100 };
    let before = MousePosition { x: 37, y: -44 };
    let mut pos = before;
    mouse_pos_updater(&mut pos, &vec![], &window);
    assert_eq!(pos, before);
}

#[test]
fn last_sample_wins() {
    let window = WindowSize { width: 200, height: 200 };
    let mut pos = MousePosition { x: 0, y: 0 };
    let samples = vec![
        ScreenPoint { x: 10, y: 10 },
        ScreenPoint { x: 50, y: 60 },
        ScreenPoint { x: 130, y: 20 },
    ];
    mouse_pos_updater(&mut pos, &samples, &window);
    assert_eq!(pos, MousePosition { x: 30, y: -80 });
}

#[test]
fn window_keeps_dimensions_without_events() {
    let before = WindowSize { width: 640, height: 480 };
    let mut win = before;
    window_resize_handler(&mut win, &vec![]);
    assert_eq!(win, before);
}

#[test]
fn last_resize_event_wins() {
    let mut win = WindowSize { width: 100, height: 100 };
    let events = vec![
        WindowSize { width: 640, height: 480 },
        WindowSize { width: 1280, height: 720 },
    ];
    window_resize_handler(&mut win, &events);
    assert_eq!(win, WindowSize { width: 1280, height: 720 });
}

#[test]
fn default_window_is_the_placeholder() {
    let win = WindowSize::default();
    assert_eq!(win, WindowSize { width: 100, height: 100 });
}
