//! Input state of the classic client: buttons of the keyboard controller and
//! the mouse, and how window-system events change them.
use vstd::prelude::*;

verus! {

/// Number of controller slots.
pub const MAX_CONTROLLERS: usize = 4;

/// One button: whether it is held.
#[derive(Clone, Copy, Debug, PartialEq, Eq, Structural)]
pub struct Button {
    pub pressed: bool,
}

impl Button {
    pub fn new() -> (b: Button)
        ensures
            !b.pressed,
    {
        Button { pressed: false }
    }

    /// Records a press (`is_down`) or a release.
    pub fn key_press(&mut self, is_down: bool)
        ensures
            final(self).pressed == is_down,
    {
        self.pressed = is_down;
    }
}

/// The buttons of a controller.
#[derive(Clone, Copy, Debug, PartialEq, Eq, Structural)]
pub struct Controller {
    pub move_up: Button,
    pub move_down: Button,
    pub move_left: Button,
    pub move_right: Button,
    pub action_up: Button,
    pub action_down: Button,
    pub action_left: Button,
    pub action_right: Button,
    pub left_shoulder: Button,
    pub right_shoulder: Button,
    pub player_up: Button,
    pub player_down: Button,
    pub player_left: Button,
    pub player_right: Button,
}

impl Controller {
    /// A controller with no button held.
    pub fn new() -> (c: Controller)
        ensures
            !c.move_up.pressed && !c.move_down.pressed && !c.move_left.pressed && !c.move_right.pressed,
            !c.action_up.pressed && !c.action_down.pressed && !c.action_left.pressed
                && !c.action_right.pressed,
            !c.left_shoulder.pressed && !c.right_shoulder.pressed,
            !c.player_up.pressed && !c.player_down.pressed && !c.player_left.pressed
                && !c.player_right.pressed,
    {
        Controller {
            move_up: Button::new(),
            move_down: Button::new(),
            move_left: Button::new(),
            move_right: Button::new(),
            action_up: Button::new(),
            action_down: Button::new(),
            action_left: Button::new(),
            action_right: Button::new(),
            left_shoulder: Button::new(),
            right_shoulder: Button::new(),
            player_up: Button::new(),
            player_down: Button::new(),
            player_left: Button::new(),
            player_right: Button::new(),
        }
    }
}

/// The keys the client reacts to.
#[derive(Clone, Copy, Debug, PartialEq, Eq, Structural)]
pub enum Key {
    W,
    A,
    S,
    D,
    Q,
    E,
    Up,
    Down,
    Right,
    Left,
    K,
    J,
    H,
    L,
    F,
    Space,
    Escape,
    Other,
}

/// The controller after key `key` went down (`is_down`) or up: W, A, S, D
/// drive the move buttons, Q and E the shoulders, the arrow keys the action
/// buttons, and K, J, H, L the player buttons up, down, right and left;
/// other keys change nothing.
pub open spec fn keycode_effect(c: Controller, key: Key, is_down: bool) -> Controller {
    let b = Button { pressed: is_down };
    Controller {
        move_up: if key == Key::W {
            b
        } else {
            c.move_up
        },
        move_down: if key == Key::S {
            b
        } else {
            c.move_down
        },
        move_left: if key == Key::A {
            b
        } else {
            c.move_left
        },
        move_right: if key == Key::D {
            b
        } else {
            c.move_right
        },
        action_up: if key == Key::Up {
            b
        } else {
            c.action_up
        },
        action_down: if key == Key::Down {
            b
        } else {
            c.action_down
        },
        action_left: if key == Key::Left {
            b
        } else {
            c.action_left
        },
        action_right: if key == Key::Right {
            b
        } else {
            c.action_right
        },
        left_shoulder: if key == Key::Q {
            b
        } else {
            c.left_shoulder
        },
        right_shoulder: if key == Key::E {
            b
        } else {
            c.right_shoulder
        },
        player_up: if key == Key::K {
            b
        } else {
            c.player_up
        },
        player_down: if key == Key::J {
            b
        } else {
            c.player_down
        },
        player_left: if key == Key::L {
            b
        } else {
            c.player_left
        },
        player_right: if key == Key::H {
            b
        } else {
            c.player_right
        },
    }
}

/// Applies a key going down or up to the controller.
pub fn process_keycode(key: Key, is_down: bool, input: &mut Controller)
    ensures
        *final(input) == keycode_effect(*old(input), key, is_down),
{
    let b = Button { pressed: is_down };
    let c = *input;
    *input = Controller {
        move_up: if key == Key::W {
            b
        } else {
            c.move_up
        },
        move_down: if key == Key::S {
            b
        } else {
            c.move_down
        },
        move_left: if key == Key::A {
            b
        } else {
            c.move_left
        },
        move_right: if key == Key::D {
            b
        } else {
            c.move_right
        },
        action_up: if key == Key::Up {
            b
        } else {
            c.action_up
        },
        action_down: if key == Key::Down {
            b
        } else {
            c.action_down
        },
        action_left: if key == Key::Left {
            b
        } else {
            c.action_left
        },
        action_right: if key == Key::Right {
            b
        } else {
            c.action_right
        },
        left_shoulder: if key == Key::Q {
            b
        } else {
            c.left_shoulder
        },
        right_shoulder: if key == Key::E {
            b
        } else {
            c.right_shoulder
        },
        player_up: if key == Key::K {
            b
        } else {
            c.player_up
        },
        player_down: if key == Key::J {
            b
        } else {
            c.player_down
        },
        player_left: if key == Key::L {
            b
        } else {
            c.player_left
        },
        player_right: if key == Key::H {
            b
        } else {
            c.player_right
        },
    };
}

/// Each arrow key drives the action button of its own direction and leaves
/// the other three as they were: Right the right one, Left the left one, Up
/// the up one and Down the down one.
pub proof fn lemma_arrow_keys_drive_their_action_buttons(c: Controller, is_down: bool)
    ensures
        keycode_effect(c, Key::Right, is_down).action_right.pressed == is_down,
        keycode_effect(c, Key::Right, is_down).action_left == c.action_left,
        keycode_effect(c, Key::Right, is_down).action_up == c.action_up,
        keycode_effect(c, Key::Right, is_down).action_down == c.action_down,
        keycode_effect(c, Key::Left, is_down).action_left.pressed == is_down,
        keycode_effect(c, Key::Left, is_down).action_right == c.action_right,
        keycode_effect(c, Key::Left, is_down).action_up == c.action_up,
        keycode_effect(c, Key::Left, is_down).action_down == c.action_down,
        keycode_effect(c, Key::Up, is_down).action_up.pressed == is_down,
        keycode_effect(c, Key::Up, is_down).action_down == c.action_down,
        keycode_effect(c, Key::Up, is_down).action_left == c.action_left,
        keycode_effect(c, Key::Up, is_down).action_right == c.action_right,
        keycode_effect(c, Key::Down, is_down).action_down.pressed == is_down,
        keycode_effect(c, Key::Down, is_down).action_up == c.action_up,
        keycode_effect(c, Key::Down, is_down).action_left == c.action_left,
        keycode_effect(c, Key::Down, is_down).action_right == c.action_right,
{
}

/// W, A, S and D drive the move buttons up, left, down and right, and no
/// action button.
pub proof fn lemma_wasd_drive_the_move_buttons(c: Controller, is_down: bool)
    ensures
        keycode_effect(c, Key::W, is_down).move_up.pressed == is_down,
        keycode_effect(c, Key::W, is_down).move_down == c.move_down,
        keycode_effect(c, Key::S, is_down).move_down.pressed == is_down,
        keycode_effect(c, Key::S, is_down).move_up == c.move_up,
        keycode_effect(c, Key::A, is_down).move_left.pressed == is_down,
        keycode_effect(c, Key::A, is_down).move_right == c.move_right,
        keycode_effect(c, Key::D, is_down).move_right.pressed == is_down,
        keycode_effect(c, Key::D, is_down).move_left == c.move_left,
        forall|k: Key|
            k == Key::W || k == Key::A || k == Key::S || k == Key::D ==> {
                let e = #[trigger] keycode_effect(c, k, is_down);
                &&& e.action_up == c.action_up
                &&& e.action_down == c.action_down
                &&& e.action_left == c.action_left
                &&& e.action_right == c.action_right
            },
{
}

/// Q and E drive the left and right shoulder buttons; K, J, H and L the
/// player buttons up, down, right and left; F, Space, Escape and the other
/// keys change no button.
pub proof fn lemma_other_keys(c: Controller, is_down: bool)
    ensures
        keycode_effect(c, Key::Q, is_down).left_shoulder.pressed == is_down,
        keycode_effect(c, Key::Q, is_down).right_shoulder == c.right_shoulder,
        keycode_effect(c, Key::E, is_down).right_shoulder.pressed == is_down,
        keycode_effect(c, Key::E, is_down).left_shoulder == c.left_shoulder,
        keycode_effect(c, Key::K, is_down).player_up.pressed == is_down,
        keycode_effect(c, Key::K, is_down).player_down == c.player_down,
        keycode_effect(c, Key::J, is_down).player_down.pressed == is_down,
        keycode_effect(c, Key::J, is_down).player_up == c.player_up,
        keycode_effect(c, Key::H, is_down).player_right.pressed == is_down,
        keycode_effect(c, Key::H, is_down).player_left == c.player_left,
        keycode_effect(c, Key::L, is_down).player_left.pressed == is_down,
        keycode_effect(c, Key::L, is_down).player_right == c.player_right,
        keycode_effect(c, Key::F, is_down) == c,
        keycode_effect(c, Key::Space, is_down) == c,
        keycode_effect(c, Key::Escape, is_down) == c,
        keycode_effect(c, Key::Other, is_down) == c,
{
}

/// Pressing a key and releasing it leaves every button as it was before,
/// when that button was up: a key's press is undone by its release.
pub proof fn lemma_press_release(c: Controller, key: Key)
    requires
        keycode_effect(c, key, false) == c,
    ensures
        keycode_effect(keycode_effect(c, key, true), key, false) == c,
{
    match key {
        Key::W => {},
        Key::A => {},
        Key::S => {},
        Key::D => {},
        Key::Q => {},
        Key::E => {},
        Key::Up => {},
        Key::Down => {},
        Key::Right => {},
        Key::Left => {},
        Key::K => {},
        Key::J => {},
        Key::H => {},
        Key::L => {},
        _ => {},
    }
}

/// Mouse buttons.
#[derive(Clone, Copy, Debug, PartialEq, Eq, Structural)]
pub enum MouseButton {
    Left,
    Middle,
    Right,
    Other,
}

/// The state of keyboard, mouse and window that the game reads.
#[derive(Clone, Copy, Debug)]
pub struct Input {
    pub keyboard: Controller,
    pub should_quit: bool,
    pub should_resize: Option<(i32, i32)>,
    pub mouse_x: i32,
    pub mouse_y: i32,
    pub mouse_left: Button,
    pub mouse_middle: Button,
    pub mouse_right: Button,
}

impl Input {
    /// Nothing held, nothing requested, the mouse at (0, 0).
    pub fn new() -> (i: Input)
        ensures
            i.keyboard == Controller::new_spec(),
            !i.should_quit,
            i.should_resize is None,
            i.mouse_x == 0 && i.mouse_y == 0,
            !i.mouse_left.pressed && !i.mouse_middle.pressed && !i.mouse_right.pressed,
    {
        Input {
            keyboard: Controller::new(),
            should_quit: false,
            should_resize: None,
            mouse_x: 0,
            mouse_y: 0,
            mouse_left: Button::new(),
            mouse_middle: Button::new(),
            mouse_right: Button::new(),
        }
    }
}

impl Controller {
    pub open spec fn new_spec() -> Controller {
        let b = Button { pressed: false };
        Controller {
            move_up: b,
            move_down: b,
            move_left: b,
            move_right: b,
            action_up: b,
            action_down: b,
            action_left: b,
            action_right: b,
            left_shoulder: b,
            right_shoulder: b,
            player_up: b,
            player_down: b,
            player_left: b,
            player_right: b,
        }
    }
}

/// A window-system event, as far as the game reacts to it.
#[derive(Clone, Copy, Debug, PartialEq, Eq, Structural)]
pub enum InputEvent {
    Quit,
    KeyDown { key: Option<Key>, repeat: bool },
    KeyUp { key: Option<Key>, repeat: bool },
    WindowSizeChanged { width: i32, height: i32 },
    WindowOther,
    MouseMotion { x: i32, y: i32 },
    MouseButtonDown { button: MouseButton },
    MouseButtonUp { button: MouseButton },
    ControllerDeviceAdded { which: u32 },
    ControllerDeviceRemoved { which: u32 },
    JoyDeviceAdded,
    Other,
}

/// What an event asks of the window system besides changing the input.
#[derive(Clone, Copy, Debug, PartialEq, Eq, Structural)]
pub enum EventAction {
    Nothing,
    AddController { which: u32 },
    RemoveController { which: u32 },
    /// An event the game does not handle; it is reported.
    Unhandled,
}

pub open spec fn mouse_effect(i: Input, button: MouseButton, is_down: bool) -> Input {
    let b = Button { pressed: is_down };
    match button {
        MouseButton::Left => Input { mouse_left: b, ..i },
        MouseButton::Middle => Input { mouse_middle: b, ..i },
        MouseButton::Right => Input { mouse_right: b, ..i },
        MouseButton::Other => i,
    }
}

/// The input after an event: quitting (also by Escape going down), keys
/// going down or up (repeats ignored), window resizes, mouse motion and
/// mouse buttons.
pub open spec fn event_effect(i: Input, e: InputEvent) -> Input {
    match e {
        InputEvent::Quit => Input { should_quit: true, ..i },
        InputEvent::KeyDown { key: Some(Key::Escape), repeat: _ } => Input { should_quit: true, ..i },
        InputEvent::KeyDown { key: Some(k), repeat } => if !repeat {
            Input { keyboard: keycode_effect(i.keyboard, k, true), ..i }
        } else {
            i
        },
        InputEvent::KeyUp { key: Some(k), repeat } => if !repeat {
            Input { keyboard: keycode_effect(i.keyboard, k, false), ..i }
        } else {
            i
        },
        InputEvent::WindowSizeChanged { width, height } => Input {
            should_resize: Some((width, height)),
            ..i
        },
        InputEvent::MouseMotion { x, y } => Input { mouse_x: x, mouse_y: y, ..i },
        InputEvent::MouseButtonDown { button } => mouse_effect(i, button, true),
        InputEvent::MouseButtonUp { button } => mouse_effect(i, button, false),
        _ => i,
    }
}

/// Applies one event to the input and says what else it asks for: adding
/// or removing a controller, reporting an unhandled event, or nothing.
pub fn handle_event(input: &mut Input, event: InputEvent) -> (a: EventAction)
    ensures
        *final(input) == event_effect(*old(input), event),
        a == event_action(event),
{
    match event {
        InputEvent::Quit => {
            input.should_quit = true;
            EventAction::Nothing
        },
        InputEvent::KeyDown { key: Some(Key::Escape), repeat: _ } => {
            input.should_quit = true;
            EventAction::Nothing
        },
        InputEvent::KeyDown { key: Some(k), repeat } => {
            if !repeat {
                process_keycode(k, true, &mut input.keyboard);
            }
            EventAction::Nothing
        },
        InputEvent::KeyUp { key: Some(k), repeat } => {
            if !repeat {
                process_keycode(k, false, &mut input.keyboard);
            }
            EventAction::Nothing
        },
        InputEvent::WindowSizeChanged { width, height } => {
            input.should_resize = Some((width, height));
            EventAction::Nothing
        },
        InputEvent::MouseMotion { x, y } => {
            input.mouse_x = x;
            input.mouse_y = y;
            EventAction::Nothing
        },
        InputEvent::MouseButtonDown { button } => {
            match button {
                MouseButton::Left => input.mouse_left.key_press(true),
                MouseButton::Middle => input.mouse_middle.key_press(true),
                MouseButton::Right => input.mouse_right.key_press(true),
                MouseButton::Other => {},
            }
            EventAction::Nothing
        },
        InputEvent::MouseButtonUp { button } => {
            match button {
                MouseButton::Left => input.mouse_left.key_press(false),
                MouseButton::Middle => input.mouse_middle.key_press(false),
                MouseButton::Right => input.mouse_right.key_press(false),
                MouseButton::Other => {},
            }
            EventAction::Nothing
        },
        InputEvent::ControllerDeviceAdded { which } => EventAction::AddController { which },
        InputEvent::ControllerDeviceRemoved { which } => EventAction::RemoveController { which },
        InputEvent::KeyDown { key: None, repeat: _ } => EventAction::Unhandled,
        InputEvent::KeyUp { key: None, repeat: _ } => EventAction::Unhandled,
        InputEvent::Other => EventAction::Unhandled,
        _ => EventAction::Nothing,
    }
}

/// What `handle_event` asks for, as a function of the event alone.
pub open spec fn event_action(e: InputEvent) -> EventAction {
    match e {
        InputEvent::ControllerDeviceAdded { which } => EventAction::AddController { which },
        InputEvent::ControllerDeviceRemoved { which } => EventAction::RemoveController { which },
        InputEvent::KeyDown { key: None, repeat: _ } => EventAction::Unhandled,
        InputEvent::KeyUp { key: None, repeat: _ } => EventAction::Unhandled,
        InputEvent::Other => EventAction::Unhandled,
        _ => EventAction::Nothing,
    }
}

/// The input after the first `n` polled events, each paired with whether it
/// equals the event polled just before it; such a repeat is skipped.
pub open spec fn events_effect(i: Input, events: Seq<(InputEvent, bool)>, n: nat) -> Input
    decreases n,
{
    if n == 0 {
        i
    } else {
        let before = events_effect(i, events, (n - 1) as nat);
        if events[n - 1].1 {
            before
        } else {
            event_effect(before, events[n - 1].0)
        }
    }
}

/// The position and request of each of the first `n` polled events that
/// is not a repeat of the one before it.
pub open spec fn events_actions(events: Seq<(InputEvent, bool)>, n: nat) -> Seq<(usize, EventAction)>
    decreases n,
{
    if n == 0 {
        Seq::empty()
    } else {
        let before = events_actions(events, (n - 1) as nat);
        if events[n - 1].1 {
            before
        } else {
            before.push(((n - 1) as usize, event_action(events[n - 1].0)))
        }
    }
}

/// Handles the events polled in one frame, in order. Each comes with
/// whether it equals the event polled just before it: such an event is
/// skipped. Gives, for every handled event, its position and what it asks
/// of the window system.
pub fn handle_events(input: &mut Input, events: &Vec<(InputEvent, bool)>) -> (actions: Vec<(usize, EventAction)>)
    ensures
        *final(input) == events_effect(*old(input), events@, events@.len()),
        actions@ == events_actions(events@, events@.len()),
{
    let mut actions: Vec<(usize, EventAction)> = Vec::new();
    let mut k: usize = 0;
    while k < events.len()
        invariant
            k <= events@.len(),
            *input == events_effect(*old(input), events@, k as nat),
            actions@ == events_actions(events@, k as nat),
        decreases events@.len() - k,
    {
        let (event, repeated) = events[k];
        if !repeated {
            let a = handle_event(input, event);
            actions.push((k, a));
        }
        k = k + 1;
    }
    actions
}

/// The controller slot of a device index: indices 1 to 3 have a slot;
/// index 0 and indices from 4 on have none.
pub fn controller_slot(index: u32) -> (s: Option<usize>)
    ensures
        0 < index < MAX_CONTROLLERS ==> s == Some(index as usize),
        !(0 < index < MAX_CONTROLLERS) ==> s is None,
{
    if index < MAX_CONTROLLERS as u32 && index > 0 {
        Some(index as usize)
    } else {
        None
    }
}

/// How many device indices a scan reports: one less than the joystick count
/// capped at the number of slots, and none without joysticks.
pub open spec fn report_count(num_joysticks: u32) -> nat {
    let cap = if num_joysticks < MAX_CONTROLLERS {
        num_joysticks as int
    } else {
        MAX_CONTROLLERS as int
    };
    if cap >= 1 {
        (cap - 1) as nat
    } else {
        0
    }
}

/// A scan for controllers: when the joystick count changed, the device
/// indices to report (1 up to, not including, the count capped at the
/// number of slots) and the new count; otherwise nothing.
pub fn controller_scan(known_count: u32, num_joysticks: u32) -> (r: Option<(Vec<u32>, u32)>)
    ensures
        known_count == num_joysticks ==> r is None,
        known_count != num_joysticks ==> (r matches Some((v, c)) && c == num_joysticks && v@
            == Seq::new(
            report_count(num_joysticks),
            |i: int| (i + 1) as u32,
        )),
{
    if known_count == num_joysticks {
        return None;
    }
    let max: u32 = MAX_CONTROLLERS as u32;
    let max = if num_joysticks < max {
        num_joysticks
    } else {
        max
    };
    let mut v: Vec<u32> = Vec::new();
    let mut index: u32 = 1;
    while index < max
        invariant
            1 <= index,
            max <= MAX_CONTROLLERS,
            max == (if num_joysticks < MAX_CONTROLLERS {
                num_joysticks
            } else {
                MAX_CONTROLLERS as u32
            }),
            index <= max || (max == 0 && index == 1),
            v@ == Seq::new((index - 1) as nat, |i: int| (i + 1) as u32),
        decreases max - index,
    {
        v.push(index);
        assert(v@ =~= Seq::new(index as nat, |i: int| (i + 1) as u32));
        index = index + 1;
    }
    assert(v@ =~= Seq::new(report_count(num_joysticks), |i: int| (i + 1) as u32));
    Some((v, num_joysticks))
}

} // verus!
