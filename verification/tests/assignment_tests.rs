use player_input::assignment::InputDeviceAssignment;
use player_input::device::{InputDevice, KeyboardScheme};

fn assert_injective(table: &InputDeviceAssignment) {
    let players = table.get_assigned_players();
    for (i, &p1) in players.iter().enumerate() {
        for &p2 in players.iter().skip(i + 1) {
            let d1 = table.get_device_for_player(p1);
            let d2 = table.get_device_for_player(p2);
            assert!(d1.is_some() && d2.is_some());
            assert_ne!(d1, d2, "players {p1} and {p2} hold the same device");
        }
    }
}

#[test]
fn test_injectivity_through_mutations() {
    let wasd = InputDevice::Keyboard(KeyboardScheme::WASD);
    let arrows = InputDevice::Keyboard(KeyboardScheme::Arrows);
    let pad = InputDevice::Gamepad(0);

    let mut table = InputDeviceAssignment::new(8);
    assert_injective(&table);

    table.assign_device(0, wasd);
    assert_injective(&table);
    table.assign_device(1, arrows);
    assert_injective(&table);
    table.assign_device(2, pad);
    assert_injective(&table);
    // Re-assign an already-held device to another player.
    table.assign_device(3, wasd);
    assert_injective(&table);
    table.unassign_player(1);
    assert_injective(&table);
    // Assign the freed device.
    table.assign_device(4, arrows);
    assert_injective(&table);
    // Self-reassignment keeps the binding.
    table.assign_device(4, arrows);
    assert_injective(&table);
    assert_eq!(table.get_device_for_player(4), Some(arrows));
}

#[test]
fn test_evict_then_assign() {
    let pad = InputDevice::Gamepad(3);
    let mut table = InputDeviceAssignment::new(4);
    table.assign_device(0, pad);
    assert_eq!(table.get_device_for_player(0), Some(pad));

    table.assign_device(1, pad);
    assert_eq!(table.get_device_for_player(0), None);
    assert_eq!(table.get_device_for_player(1), Some(pad));
}

#[test]
fn test_holder_queries() {
    let wasd = InputDevice::Keyboard(KeyboardScheme::WASD);
    let arrows = InputDevice::Keyboard(KeyboardScheme::Arrows);
    let mut table = InputDeviceAssignment::new(4);
    assert!(table.is_empty());
    assert!(!table.is_device_assigned(&wasd));
    assert_eq!(table.get_player_for_device(&wasd), None);

    table.assign_device(2, wasd);
    assert!(!table.is_empty());
    assert!(table.is_device_assigned(&wasd));
    assert!(!table.is_device_assigned(&arrows));
    assert_eq!(table.get_player_for_device(&wasd), Some(2));
}

#[test]
fn test_unassign_and_clear() {
    let wasd = InputDevice::Keyboard(KeyboardScheme::WASD);
    let pad = InputDevice::Gamepad(0);
    let mut table = InputDeviceAssignment::new(4);
    table.assign_device(0, wasd);
    table.assign_device(1, pad);

    // Unassigning an absent player is a no-op.
    table.unassign_player(7);
    assert_eq!(table.get_assigned_players().len(), 2);

    table.unassign_player(0);
    assert_eq!(table.get_device_for_player(0), None);
    assert_eq!(table.get_device_for_player(1), Some(pad));

    table.clear();
    assert!(table.is_empty());
    assert_eq!(table.get_assigned_players().len(), 0);
}

#[test]
fn test_default_table() {
    let table = InputDeviceAssignment::default();
    assert!(table.is_empty());
    assert_eq!(table.get_max_players(), 0);
}

#[test]
fn test_equal_custom_schemes_are_one_device() {
    // Devices compare by value: two equal custom schemes are the same device.
    let custom_a = InputDevice::Keyboard(KeyboardScheme::Custom {
        up: 1,
        down: 2,
        left: 3,
        right: 4,
    });
    let custom_b = InputDevice::Keyboard(KeyboardScheme::Custom {
        up: 1,
        down: 2,
        left: 3,
        right: 4,
    });
    assert_eq!(custom_a, custom_b);
    let mut table = InputDeviceAssignment::new(4);
    table.assign_device(0, custom_a);
    table.assign_device(1, custom_b);
    assert_eq!(table.get_device_for_player(0), None);
    assert_eq!(table.get_device_for_player(1), Some(custom_a));
}
