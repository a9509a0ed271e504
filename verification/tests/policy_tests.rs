use player_input::assignment::InputDeviceAssignment;
use player_input::buttons::ButtonStates;
use player_input::controller::{
    InputConfigurationEvent, InputController, InputEvent, InputSettings, PlayerInputMapping,
};
use player_input::device::{
    AvailableInputDevices, InputDevice, KeyboardScheme, KEY_F, KEY_G, KEY_H, KEY_T,
};
use player_input::systems::{
    auto_assign_devices, detect_gamepads, handle_input_configuration_events, tick,
    update_player_mappings, GamepadState,
};

fn catalog(gamepads: Vec<u64>) -> AvailableInputDevices {
    AvailableInputDevices {
        gamepads,
        mouse: false,
        touch: false,
        keyboard: true,
    }
}

#[test]
fn test_deterministic_auto_assignment() {
    let settings = InputSettings::default();
    let controllers = vec![InputController::new(0), InputController::new(1)];
    let available = catalog(vec![10]);

    let run = || {
        let mut table = InputDeviceAssignment::new(8);
        auto_assign_devices(&mut table, &available, &settings, &controllers);
        (
            table.get_device_for_player(0),
            table.get_device_for_player(1),
        )
    };
    let first = run();
    // Fixed catalog, empty table: the outcome is always the same.
    for _ in 0..10 {
        assert_eq!(run(), first);
    }
    // And it follows the catalog's enumeration order.
    assert_eq!(first.0, Some(InputDevice::Keyboard(KeyboardScheme::WASD)));
    assert_eq!(first.1, Some(InputDevice::Keyboard(KeyboardScheme::Arrows)));
}

#[test]
fn test_auto_assignment_only_on_empty_table() {
    let settings = InputSettings::default();
    let controllers = vec![InputController::new(0), InputController::new(1)];
    let available = catalog(vec![]);

    let mut table = InputDeviceAssignment::new(8);
    table.assign_device(1, InputDevice::Keyboard(KeyboardScheme::IJKL));
    auto_assign_devices(&mut table, &available, &settings, &controllers);
    // The policy fires only on a completely empty table: player 0 stays
    // unassigned, player 1 keeps its device.
    assert_eq!(table.get_device_for_player(0), None);
    assert_eq!(
        table.get_device_for_player(1),
        Some(InputDevice::Keyboard(KeyboardScheme::IJKL))
    );
}

#[test]
fn test_auto_assignment_respects_max_players_and_toggle() {
    let controllers = vec![InputController::new(0), InputController::new(1)];
    let available = catalog(vec![]);

    let mut settings = InputSettings::default();
    settings.auto_assign_devices = false;
    let mut table = InputDeviceAssignment::new(8);
    auto_assign_devices(&mut table, &available, &settings, &controllers);
    assert!(table.is_empty());

    settings.auto_assign_devices = true;
    let mut capped = InputDeviceAssignment::new(1);
    auto_assign_devices(&mut capped, &available, &settings, &controllers);
    assert_eq!(
        capped.get_device_for_player(0),
        Some(InputDevice::Keyboard(KeyboardScheme::WASD))
    );
    assert_eq!(capped.get_device_for_player(1), None);
}

#[test]
fn test_no_device_for_player() {
    // An empty catalog leaves every player unassigned; no error is raised.
    let settings = InputSettings::default();
    let controllers = vec![InputController::new(0)];
    let empty_catalog = AvailableInputDevices {
        gamepads: vec![],
        mouse: false,
        touch: false,
        keyboard: false,
    };
    let mut table = InputDeviceAssignment::new(4);
    auto_assign_devices(&mut table, &empty_catalog, &settings, &controllers);
    assert_eq!(table.get_device_for_player(0), None);
    assert!(table.is_empty());
}

#[test]
fn test_more_players_than_devices() {
    // Keyboard only: four schemes for five players; the fifth stays empty.
    let settings = InputSettings::default();
    let controllers: Vec<InputController> = (0..5).map(InputController::new).collect();
    let available = catalog(vec![]);
    let mut table = InputDeviceAssignment::new(8);
    auto_assign_devices(&mut table, &available, &settings, &controllers);
    assert_eq!(
        table.get_device_for_player(0),
        Some(InputDevice::Keyboard(KeyboardScheme::WASD))
    );
    assert_eq!(
        table.get_device_for_player(1),
        Some(InputDevice::Keyboard(KeyboardScheme::Arrows))
    );
    assert_eq!(
        table.get_device_for_player(2),
        Some(InputDevice::Keyboard(KeyboardScheme::IJKL))
    );
    assert_eq!(
        table.get_device_for_player(3),
        Some(InputDevice::Keyboard(KeyboardScheme::Custom {
            up: KEY_T,
            down: KEY_G,
            left: KEY_F,
            right: KEY_H,
        }))
    );
    assert_eq!(table.get_device_for_player(4), None);
}

#[test]
fn test_idempotent_sync() {
    let mut table = InputDeviceAssignment::new(4);
    table.assign_device(0, InputDevice::Gamepad(0));
    let mut mappings = vec![
        PlayerInputMapping::new(0),
        PlayerInputMapping::new(1).with_secondary_device(Some(InputDevice::Mouse)),
    ];

    update_player_mappings(&table, &mut mappings);
    let once = mappings.clone();
    update_player_mappings(&table, &mut mappings);
    // Syncing twice with no table change produces the same mapping state.
    assert_eq!(mappings, once);

    assert_eq!(mappings[0].primary_device, Some(InputDevice::Gamepad(0)));
    assert_eq!(mappings[1].primary_device, None);
    // The sync is one-way and total: it overwrites, never merges; other
    // fields are untouched.
    assert_eq!(mappings[1].secondary_device, Some(InputDevice::Mouse));
}

#[test]
fn test_manual_assignment_rejections() {
    let available = catalog(vec![]);
    let mut table = InputDeviceAssignment::new(4);
    table.assign_device(0, InputDevice::Keyboard(KeyboardScheme::WASD));
    let mut events: Vec<InputEvent> = Vec::new();

    // DeviceUnavailable: no gamepad is connected, so the request is ignored.
    let unavailable = vec![InputConfigurationEvent::DeviceAssigned {
        player_id: 1,
        device: InputDevice::Gamepad(0),
    }];
    handle_input_configuration_events(&unavailable, &mut table, &available, &mut events);
    assert_eq!(table.get_device_for_player(1), None);
    assert!(events.is_empty());

    // DeviceAlreadyHeld: another player holds the scheme; table unchanged.
    let held = vec![InputConfigurationEvent::DeviceAssigned {
        player_id: 1,
        device: InputDevice::Keyboard(KeyboardScheme::WASD),
    }];
    handle_input_configuration_events(&held, &mut table, &available, &mut events);
    assert_eq!(table.get_device_for_player(1), None);
    assert_eq!(
        table.get_device_for_player(0),
        Some(InputDevice::Keyboard(KeyboardScheme::WASD))
    );
    assert!(events.is_empty());

    // Re-assigning one's own device is accepted.
    let own = vec![InputConfigurationEvent::DeviceAssigned {
        player_id: 0,
        device: InputDevice::Keyboard(KeyboardScheme::WASD),
    }];
    handle_input_configuration_events(&own, &mut table, &available, &mut events);
    assert_eq!(events.len(), 1);

    // Unassignment always goes through and is acknowledged.
    let off = vec![InputConfigurationEvent::DeviceUnassigned { player_id: 0 }];
    handle_input_configuration_events(&off, &mut table, &available, &mut events);
    assert_eq!(table.get_device_for_player(0), None);
    assert_eq!(events.len(), 2);
    assert!(matches!(
        events[1],
        InputEvent::DeviceUnassigned { player_id: 0 }
    ));
}

#[test]
fn test_end_to_end_scenario() {
    // Keyboard and one gamepad available; auto-assignment on; two players.
    let settings = InputSettings::default();
    let mut available = AvailableInputDevices::new();
    detect_gamepads(&mut available, &vec![77], false, false);
    let controllers = vec![InputController::new(0), InputController::new(1)];
    let mut table = InputDeviceAssignment::new(2);

    auto_assign_devices(&mut table, &available, &settings, &controllers);
    // Enumeration order: player 0 takes the first keyboard scheme; player 1
    // the next free device in catalog order.
    assert_eq!(
        table.get_device_for_player(0),
        Some(InputDevice::Keyboard(KeyboardScheme::WASD))
    );
    assert_eq!(
        table.get_device_for_player(1),
        Some(InputDevice::Keyboard(KeyboardScheme::Arrows))
    );

    // A configuration request for a device held by a different player is
    // rejected: the table is left unchanged.
    let mut events: Vec<InputEvent> = Vec::new();
    let request = vec![InputConfigurationEvent::DeviceAssigned {
        player_id: 1,
        device: InputDevice::Keyboard(KeyboardScheme::WASD),
    }];
    handle_input_configuration_events(&request, &mut table, &available, &mut events);
    assert_eq!(
        table.get_device_for_player(0),
        Some(InputDevice::Keyboard(KeyboardScheme::WASD))
    );
    assert!(events.is_empty());

    // Reassigning player 1 through the table itself evicts player 0, leaving
    // player 0 unassigned and player 1 on the scheme.
    table.assign_device(1, InputDevice::Keyboard(KeyboardScheme::WASD));
    assert_eq!(table.get_device_for_player(0), None);
    assert_eq!(
        table.get_device_for_player(1),
        Some(InputDevice::Keyboard(KeyboardScheme::WASD))
    );
}

#[test]
fn test_full_tick() {
    let settings = InputSettings::default();
    let mut available = AvailableInputDevices::new();
    let mut table = InputDeviceAssignment::new(2);
    let mut controllers = vec![InputController::new(0), InputController::new(1)];
    let mut mappings = vec![PlayerInputMapping::new(0), PlayerInputMapping::new(1)];
    let mut keyboard = ButtonStates::new();
    let mut pad_buttons = ButtonStates::new();
    pad_buttons.advance(&vec![]);
    let gamepads = vec![GamepadState {
        entity: 55,
        buttons: pad_buttons,
        stick_x: 600,
        stick_y: 0,
    }];

    keyboard.advance(&vec![]);
    let events = tick(
        &mut available,
        &mut table,
        &settings,
        &mut controllers,
        &mut mappings,
        &vec![55],
        true,
        false,
        &keyboard,
        &gamepads,
    );

    // After one tick: catalog refreshed, players assigned in order, mappings
    // synced, and the gamepad's stick drives player 1.
    assert_eq!(available.gamepads, vec![55]);
    assert_eq!(
        table.get_device_for_player(0),
        Some(InputDevice::Keyboard(KeyboardScheme::WASD))
    );
    assert_eq!(
        table.get_device_for_player(1),
        Some(InputDevice::Keyboard(KeyboardScheme::Arrows))
    );
    assert_eq!(
        mappings[0].primary_device,
        Some(InputDevice::Keyboard(KeyboardScheme::WASD))
    );
    assert_eq!(
        mappings[1].primary_device,
        Some(InputDevice::Keyboard(KeyboardScheme::Arrows))
    );
    // No keys pressed and no gamepad mapped: no events this tick.
    assert!(events.is_empty());
    // Action flags are cleared at end of tick.
    assert!(!controllers[0].primary_action && !controllers[1].primary_action);
}

#[test]
fn test_detect_gamepads_reports_count_change() {
    let mut available = AvailableInputDevices::new();
    let changed = detect_gamepads(&mut available, &vec![5, 6], true, false);
    assert!(changed);
    assert_eq!(available.gamepads, vec![5, 6]);
    assert!(available.keyboard);
    assert!(available.mouse);
    assert!(!available.touch);

    // Same count: no change reported, list refreshed.
    let changed = detect_gamepads(&mut available, &vec![5, 9], true, true);
    assert!(!changed);
    assert_eq!(available.gamepads, vec![5, 9]);
    assert!(available.touch);
}
