use novluno::game::{Game, State, MAP_OFF_X_START, MAP_OFF_Y_START, SCROLL_STEP};
use novluno::input::{
    controller_scan, controller_slot, handle_event, handle_events, process_keycode, Button, Controller, EventAction, Input,
    InputEvent, Key, MouseButton, MAX_CONTROLLERS,
};

#[test]
fn buttons_follow_keys() {
    let mut b = Button::new();
    assert!(!b.pressed);
    b.key_press(true);
    assert!(b.pressed);
    b.key_press(false);
    assert!(!b.pressed);

    let mut c = Controller::new();
    assert_eq!(c, Controller::new());
    process_keycode(Key::W, true, &mut c);
    process_keycode(Key::Up, true, &mut c);
    process_keycode(Key::H, true, &mut c);
    process_keycode(Key::L, true, &mut c);
    process_keycode(Key::Q, true, &mut c);
    assert!(c.move_up.pressed && c.action_up.pressed && c.left_shoulder.pressed);
    // H drives the player's right button and L its left one
    assert!(c.player_right.pressed && c.player_left.pressed);
    assert!(!c.move_down.pressed && !c.player_up.pressed);
    let before = c;
    process_keycode(Key::Space, true, &mut c);
    process_keycode(Key::F, false, &mut c);
    assert_eq!(c, before);
    process_keycode(Key::W, false, &mut c);
    assert!(!c.move_up.pressed);
    // a press and a release of the same key leave the controller as it was
    let mut d = Controller::new();
    process_keycode(Key::J, true, &mut d);
    process_keycode(Key::J, false, &mut d);
    assert_eq!(d, Controller::new());
}

#[test]
fn events_change_the_input() {
    let mut input = Input::new();
    assert!(!input.should_quit && input.should_resize.is_none());
    assert_eq!(handle_event(&mut input, InputEvent::KeyDown { key: Some(Key::D), repeat: false }), EventAction::Nothing);
    assert!(input.keyboard.move_right.pressed);
    handle_event(&mut input, InputEvent::KeyUp { key: Some(Key::D), repeat: true });
    assert!(input.keyboard.move_right.pressed);
    handle_event(&mut input, InputEvent::KeyUp { key: Some(Key::D), repeat: false });
    assert!(!input.keyboard.move_right.pressed);
    handle_event(&mut input, InputEvent::KeyDown { key: Some(Key::S), repeat: true });
    assert!(!input.keyboard.move_down.pressed);

    handle_event(&mut input, InputEvent::WindowSizeChanged { width: 800, height: 600 });
    assert_eq!(input.should_resize, Some((800, 600)));
    handle_event(&mut input, InputEvent::MouseMotion { x: 17, y: -4 });
    assert_eq!((input.mouse_x, input.mouse_y), (17, -4));
    handle_event(&mut input, InputEvent::MouseButtonDown { button: MouseButton::Middle });
    assert!(input.mouse_middle.pressed && !input.mouse_left.pressed);
    handle_event(&mut input, InputEvent::MouseButtonUp { button: MouseButton::Middle });
    assert!(!input.mouse_middle.pressed);
    handle_event(&mut input, InputEvent::MouseButtonDown { button: MouseButton::Other });
    assert!(!input.mouse_left.pressed && !input.mouse_right.pressed);

    assert_eq!(handle_event(&mut input, InputEvent::ControllerDeviceAdded { which: 2 }), EventAction::AddController { which: 2 });
    assert_eq!(handle_event(&mut input, InputEvent::ControllerDeviceRemoved { which: 2 }), EventAction::RemoveController { which: 2 });
    assert_eq!(handle_event(&mut input, InputEvent::KeyDown { key: None, repeat: false }), EventAction::Unhandled);
    assert_eq!(handle_event(&mut input, InputEvent::Other), EventAction::Unhandled);
    assert_eq!(handle_event(&mut input, InputEvent::WindowOther), EventAction::Nothing);
    assert_eq!(handle_event(&mut input, InputEvent::JoyDeviceAdded), EventAction::Nothing);
    assert!(!input.should_quit);

    let mut esc = Input::new();
    handle_event(&mut esc, InputEvent::KeyDown { key: Some(Key::Escape), repeat: true });
    assert!(esc.should_quit);
    let mut quit = Input::new();
    handle_event(&mut quit, InputEvent::Quit);
    assert!(quit.should_quit);
}

#[test]
fn controller_slots_and_scans() {
    assert_eq!(MAX_CONTROLLERS, 4);
    assert_eq!(controller_slot(0), None);
    assert_eq!(controller_slot(1), Some(1));
    assert_eq!(controller_slot(3), Some(3));
    assert_eq!(controller_slot(4), None);
    assert!(controller_scan(2, 2).is_none());
    assert_eq!(controller_scan(0, 3), Some((vec![1, 2], 3)));
    assert_eq!(controller_scan(0, 9), Some((vec![1, 2, 3], 9)));
    assert_eq!(controller_scan(3, 1), Some((vec![], 1)));
    assert_eq!(controller_scan(3, 0), Some((vec![], 0)));
}

#[test]
fn game_updates_from_the_keyboard() {
    let mut g = Game::new();
    assert_eq!(g.state, State::new());
    assert_eq!((g.state.player_x, g.state.player_y, g.state.map), (50, 50, 0));
    assert_eq!((g.state.map_off_x, g.state.map_off_y), (MAP_OFF_X_START, MAP_OFF_Y_START));
    assert_eq!((MAP_OFF_X_START, MAP_OFF_Y_START, SCROLL_STEP), (-24, -48, 100));

    g.get_mut_keyboard().action_up.key_press(true);
    g.get_mut_keyboard().action_right.key_press(true);
    g.update();
    assert_eq!((g.state.map_off_x, g.state.map_off_y), (-124, 52));

    // scrolling both ways cancels out
    g.get_mut_keyboard().action_down.key_press(true);
    g.get_mut_keyboard().action_left.key_press(true);
    g.update();
    assert_eq!((g.state.map_off_x, g.state.map_off_y), (-124, 52));

    // no previous map at map 0, and the offset is kept
    let k = g.get_mut_keyboard();
    *k = Controller::new();
    k.move_down.key_press(true);
    g.update();
    assert_eq!((g.state.map, g.state.map_off_x), (0, -124));

    // the next map resets the offset
    g.get_mut_keyboard().move_down.key_press(false);
    g.get_mut_keyboard().move_up.key_press(true);
    g.get_mut_keyboard().action_up.key_press(true);
    g.update();
    assert_eq!((g.state.map, g.state.map_off_x, g.state.map_off_y), (1, -24, -48));

    // previous then next in one update stays on the map
    g.get_mut_keyboard().move_down.key_press(true);
    g.update();
    assert_eq!((g.state.map, g.state.map_off_x, g.state.map_off_y), (1, -24, -48));
    assert_eq!((g.state.player_x, g.state.player_y), (50, 50));
}

#[test]
fn a_frame_of_events() {
    let mut input = Input::new();
    let down = InputEvent::KeyDown { key: Some(Key::A), repeat: false };
    let added = InputEvent::ControllerDeviceAdded { which: 1 };
    let events = vec![
        (down, false),
        // the same event polled again is skipped
        (down, true),
        (added, false),
        (added, true),
        (InputEvent::KeyUp { key: Some(Key::A), repeat: false }, false),
        (InputEvent::Other, false),
        (InputEvent::MouseMotion { x: 3, y: 4 }, false),
        (InputEvent::MouseMotion { x: 9, y: 9 }, true),
    ];
    let actions = handle_events(&mut input, &events);
    assert_eq!(
        actions,
        vec![
            (0, EventAction::Nothing),
            (2, EventAction::AddController { which: 1 }),
            (4, EventAction::Nothing),
            (5, EventAction::Unhandled),
            (6, EventAction::Nothing),
        ]
    );
    assert!(!input.keyboard.move_left.pressed);
    assert_eq!((input.mouse_x, input.mouse_y), (3, 4));
    assert!(handle_events(&mut input, &vec![]).is_empty());
}
