use player_input::buttons::{
    ButtonStates, BTN_DPAD_RIGHT, BTN_DPAD_UP, BTN_EAST, BTN_SOUTH,
};
use player_input::controller::{
    InputController, InputEvent, InputSettings, InputSource, PlayerInputMapping,
};
use player_input::device::{InputDevice, KeyboardScheme, KEY_D, KEY_SPACE, KEY_W};
use player_input::math::{keyboard_vec, Vec2Fixed, UNIT};
use player_input::systems::{sample_gamepad, sample_keyboard, gamepad_move_vec, GamepadState};

fn magnitude(v: Vec2Fixed) -> f64 {
    let x = v.x as f64 / UNIT as f64;
    let y = v.y as f64 / UNIT as f64;
    (x * x + y * y).sqrt()
}

#[test]
fn test_keyboard_normalization() {
    // Every non-zero combined direction has magnitude 1.0 within tolerance.
    for mask in 1u32..16 {
        let up = mask & 1 != 0;
        let down = mask & 2 != 0;
        let left = mask & 4 != 0;
        let right = mask & 8 != 0;
        let v = keyboard_vec(up, down, left, right);
        if v != (Vec2Fixed { x: 0, y: 0 }) {
            let m = magnitude(v);
            assert!((m - 1.0).abs() < 1e-3, "magnitude {m} for mask {mask}");
        }
    }
    // Cancelling keys give the zero vector.
    assert_eq!(keyboard_vec(true, true, false, false), Vec2Fixed { x: 0, y: 0 });
    // An axis press gives a whole unit; a diagonal splits it evenly.
    assert_eq!(keyboard_vec(true, false, false, false), Vec2Fixed { x: 0, y: 1000 });
    assert_eq!(keyboard_vec(false, true, true, false), Vec2Fixed { x: -707, y: -707 });
}

fn pad(entity: u64, buttons_down: Vec<u32>, stick_x: i32, stick_y: i32) -> GamepadState {
    let mut buttons = ButtonStates::new();
    buttons.advance(&buttons_down);
    GamepadState { entity, buttons, stick_x, stick_y }
}

#[test]
fn test_gamepad_clamp() {
    // D-pad diagonal plus a stick reading exceeds unit length and is clamped.
    let g = pad(9, vec![BTN_DPAD_UP, BTN_DPAD_RIGHT], 500, 0);
    let v = gamepad_move_vec(&g, 200);
    assert!(magnitude(v) <= 1.0);
    assert!(magnitude(v) > 0.99);

    // A reading already within one unit is left unchanged, not renormalized.
    let g2 = pad(9, vec![], 300, 400);
    let v2 = gamepad_move_vec(&g2, 200);
    assert_eq!(v2, Vec2Fixed { x: 300, y: 400 });
}

#[test]
fn test_deadzone_boundary() {
    // A stick magnitude exactly at the deadzone does not register.
    let at = pad(9, vec![], 200, 0);
    assert_eq!(gamepad_move_vec(&at, 200), Vec2Fixed { x: 0, y: 0 });

    // One thousandth above it does.
    let above = pad(9, vec![], 201, 0);
    assert_eq!(gamepad_move_vec(&above, 200), Vec2Fixed { x: 201, y: 0 });
}

#[test]
fn test_action_edge_semantics() {
    // Holding the confirm key for 5 consecutive ticks fires exactly once.
    let settings = InputSettings::default();
    let mapping = PlayerInputMapping::new(0);
    let mut controller = InputController::new(0);
    let mut keyboard = ButtonStates::new();
    let mut events: Vec<InputEvent> = Vec::new();

    for _tick in 0..5 {
        keyboard.advance(&vec![KEY_SPACE]);
        sample_keyboard(&mut controller, &mapping, &keyboard, &settings, &mut events);
        // End of tick: consumers saw the flags; clear them.
        controller.primary_action = false;
        controller.secondary_action = false;
    }

    let fired = events
        .iter()
        .filter(|e| matches!(e, InputEvent::PrimaryAction { .. }))
        .count();
    assert_eq!(fired, 1);
}

#[test]
fn test_keyboard_movement_and_threshold() {
    let settings = InputSettings::default();
    let mapping = PlayerInputMapping::new(0);
    let mut controller = InputController::new(0);
    let mut keyboard = ButtonStates::new();
    let mut events: Vec<InputEvent> = Vec::new();

    // W and D held: diagonal movement, one Movement event.
    keyboard.advance(&vec![KEY_W, KEY_D]);
    sample_keyboard(&mut controller, &mapping, &keyboard, &settings, &mut events);
    assert_eq!(controller.movement, Vec2Fixed { x: 707, y: 707 });
    assert_eq!(
        controller.input_source,
        InputSource::Keyboard(KeyboardScheme::WASD)
    );
    assert_eq!(events.len(), 1);
    assert!(matches!(events[0], InputEvent::Movement { player_id: 0, .. }));

    // Keys released: the same keyboard source zeroes its own movement.
    keyboard.advance(&vec![]);
    sample_keyboard(&mut controller, &mapping, &keyboard, &settings, &mut events);
    assert_eq!(controller.movement, Vec2Fixed { x: 0, y: 0 });
    assert_eq!(events.len(), 1);
}

#[test]
fn test_idle_keyboard_does_not_clobber_gamepad_movement() {
    let settings = InputSettings::default();
    // Primary device is a gamepad; the keyboard scheme comes from the fallback.
    let mapping = PlayerInputMapping::new(0)
        .with_primary_device(InputDevice::Gamepad(0))
        .with_secondary_device(Some(InputDevice::Keyboard(KeyboardScheme::WASD)));
    let mut controller = InputController::new(0);
    let mut events: Vec<InputEvent> = Vec::new();

    // The gamepad wrote movement and is the active source.
    let gamepads = vec![pad(42, vec![], 800, 0)];
    sample_gamepad(&mut controller, &mapping, &gamepads, &settings, &mut events);
    assert_eq!(controller.movement, Vec2Fixed { x: 800, y: 0 });
    assert_eq!(controller.input_source, InputSource::Gamepad(42));

    // An idle keyboard reading must not zero the gamepad's movement.
    let keyboard = ButtonStates::new();
    sample_keyboard(&mut controller, &mapping, &keyboard, &settings, &mut events);
    assert_eq!(controller.movement, Vec2Fixed { x: 800, y: 0 });
}

#[test]
fn test_disabled_controller_ignores_input() {
    let settings = InputSettings::default();
    let mapping = PlayerInputMapping::new(0);
    let mut controller = InputController::new(0).enabled(false);
    let mut keyboard = ButtonStates::new();
    let mut events: Vec<InputEvent> = Vec::new();

    keyboard.advance(&vec![KEY_W, KEY_SPACE]);
    sample_keyboard(&mut controller, &mapping, &keyboard, &settings, &mut events);
    assert_eq!(controller.movement, Vec2Fixed { x: 0, y: 0 });
    assert!(!controller.primary_action);
    assert!(events.is_empty());
}

#[test]
fn test_gamepad_actions_and_secondary() {
    let settings = InputSettings::default();
    let mapping = PlayerInputMapping::new(0).with_primary_device(InputDevice::Gamepad(0));
    let mut controller = InputController::new(0);
    let mut events: Vec<InputEvent> = Vec::new();

    let gamepads = vec![pad(7, vec![BTN_SOUTH, BTN_EAST], 0, 0)];
    sample_gamepad(&mut controller, &mapping, &gamepads, &settings, &mut events);
    assert!(controller.primary_action);
    assert!(controller.secondary_action);
    assert_eq!(controller.input_source, InputSource::Gamepad(7));
    assert_eq!(events.len(), 2);
    assert!(matches!(events[0], InputEvent::PrimaryAction { player_id: 0, .. }));
    assert!(matches!(events[1], InputEvent::SecondaryAction { player_id: 0, .. }));
}

#[test]
fn test_controller_helpers() {
    let mut c = InputController::new(3)
        .with_input_source(InputSource::Mouse)
        .enabled(true);
    assert_eq!(c.player_id, 3);
    assert_eq!(c.input_source, InputSource::Mouse);
    assert!(!c.has_input());
    c.primary_action = true;
    assert!(c.has_input());
    c.clear();
    assert!(!c.has_input());

    let m = PlayerInputMapping::new(5);
    assert_eq!(
        m.get_active_device(),
        Some(InputDevice::Keyboard(KeyboardScheme::WASD))
    );
    let m2 = m
        .with_primary_device(InputDevice::Gamepad(1))
        .with_secondary_device(Some(InputDevice::Mouse));
    assert_eq!(m2.get_active_device(), Some(InputDevice::Gamepad(1)));
    let m3 = m2.with_secondary_device(Some(InputDevice::Touch));
    assert_eq!(m3.secondary_device, Some(InputDevice::Touch));

    assert_eq!(InputSource::Keyboard(KeyboardScheme::IJKL).name(), "Keyboard (IJKL)");
    assert_eq!(InputSource::Gamepad(9).name(), "Gamepad");
}

#[test]
fn test_default_settings() {
    let s = InputSettings::default();
    assert_eq!(s.gamepad_deadzone, 200);
    assert_eq!(s.movement_threshold, 100);
    assert!(s.auto_assign_devices);
    assert!(s.allow_keyboard_sharing);
}

#[test]
fn test_button_edge_tracking() {
    let mut b = ButtonStates::new();
    assert!(!b.pressed(KEY_SPACE));
    assert!(!b.just_pressed(KEY_SPACE));

    b.advance(&vec![KEY_SPACE]);
    assert!(b.pressed(KEY_SPACE));
    assert!(b.just_pressed(KEY_SPACE));

    b.advance(&vec![KEY_SPACE]);
    assert!(b.pressed(KEY_SPACE));
    assert!(!b.just_pressed(KEY_SPACE));

    b.advance(&vec![]);
    assert!(!b.pressed(KEY_SPACE));
    assert!(!b.just_pressed(KEY_SPACE));

    b.advance(&vec![KEY_SPACE]);
    assert!(b.just_pressed(KEY_SPACE));
}

#[test]
fn test_default_controller_and_mapping() {
    let c = InputController::default();
    assert_eq!(c.player_id, 0);
    assert_eq!(c.movement, Vec2Fixed { x: 0, y: 0 });
    assert!(!c.primary_action && !c.secondary_action);
    assert_eq!(c.input_source, InputSource::Keyboard(KeyboardScheme::WASD));
    assert!(c.enabled);

    let m = PlayerInputMapping::default();
    assert_eq!(m.primary_device, Some(InputDevice::Keyboard(KeyboardScheme::WASD)));
    assert_eq!(m.secondary_device, None);
    assert!(m.enabled);
}
