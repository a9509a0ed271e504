use std::collections::HashMap;

use player_input::device::{
    u64_to_decimal, AvailableInputDevices, InputDevice, InputDeviceCategory, KeyboardScheme,
    KEY_A, KEY_D, KEY_F, KEY_G, KEY_H, KEY_S, KEY_T, KEY_W,
};

#[test]
fn test_available_input_devices() {
    let devices = AvailableInputDevices {
        gamepads: vec![1, 2],
        mouse: true,
        touch: false,
        keyboard: true,
    };

    let available = devices.get_available_devices();

    // Should have keyboard schemes + gamepads + mouse
    assert!(available.len() >= 6); // 4 keyboard schemes + 2 gamepads + mouse

    // Check that we have keyboard schemes
    assert!(available
        .iter()
        .any(|d| matches!(d, InputDevice::Keyboard(KeyboardScheme::WASD))));
    assert!(available
        .iter()
        .any(|d| matches!(d, InputDevice::Keyboard(KeyboardScheme::Arrows))));
    assert!(available
        .iter()
        .any(|d| matches!(d, InputDevice::Keyboard(KeyboardScheme::IJKL))));

    // Check that we have gamepads
    assert!(available.iter().any(|d| matches!(d, InputDevice::Gamepad(0))));
    assert!(available.iter().any(|d| matches!(d, InputDevice::Gamepad(1))));

    // Check that we have mouse
    assert!(available.iter().any(|d| matches!(d, InputDevice::Mouse)));

    // Check that we don't have touch (disabled)
    assert!(!available.iter().any(|d| matches!(d, InputDevice::Touch)));
}

#[test]
fn test_keyboard_schemes() {
    let wasd = KeyboardScheme::WASD;
    let arrows = KeyboardScheme::Arrows;
    let custom = KeyboardScheme::Custom {
        up: KEY_T,
        down: KEY_G,
        left: KEY_F,
        right: KEY_H,
    };

    assert_eq!(wasd.name(), "WASD");
    assert_eq!(arrows.name(), "Arrow Keys");
    assert_eq!(custom.name(), "Custom Keys");

    let (up, down, left, right) = wasd.get_keys();
    assert_eq!((up, down, left, right), (KEY_W, KEY_S, KEY_A, KEY_D));
}

#[test]
fn test_device_categories() {
    let keyboard_device = InputDevice::Keyboard(KeyboardScheme::WASD);
    let gamepad_device = InputDevice::Gamepad(0);
    let mouse_device = InputDevice::Mouse;
    let touch_device = InputDevice::Touch;

    assert_eq!(keyboard_device.category(), InputDeviceCategory::Keyboard);
    assert_eq!(gamepad_device.category(), InputDeviceCategory::Gamepad);
    assert_eq!(mouse_device.category(), InputDeviceCategory::Pointing);
    assert_eq!(touch_device.category(), InputDeviceCategory::Touch);
}

#[test]
fn test_category_hash() {
    let mut map = HashMap::new();
    map.insert(InputDeviceCategory::Keyboard, "keyboard");
    map.insert(InputDeviceCategory::Gamepad, "gamepad");

    assert_eq!(map.get(&InputDeviceCategory::Keyboard), Some(&"keyboard"));
    assert_eq!(map.get(&InputDeviceCategory::Gamepad), Some(&"gamepad"));
}

#[test]
fn test_catalog_enumeration_order() {
    let devices = AvailableInputDevices {
        gamepads: vec![7],
        mouse: true,
        touch: true,
        keyboard: true,
    };
    let available = devices.get_available_devices();
    assert_eq!(available[0], InputDevice::Keyboard(KeyboardScheme::WASD));
    assert_eq!(available[1], InputDevice::Keyboard(KeyboardScheme::Arrows));
    assert_eq!(available[2], InputDevice::Keyboard(KeyboardScheme::IJKL));
    assert_eq!(
        available[3],
        InputDevice::Keyboard(KeyboardScheme::Custom {
            up: KEY_T,
            down: KEY_G,
            left: KEY_F,
            right: KEY_H,
        })
    );
    assert_eq!(available[4], InputDevice::Gamepad(0));
    assert_eq!(available[5], InputDevice::Mouse);
    assert_eq!(available[6], InputDevice::Touch);
    assert_eq!(available.len(), 7);
}

#[test]
fn test_device_names_and_descriptions() {
    assert_eq!(
        InputDevice::Keyboard(KeyboardScheme::WASD).name(),
        "Keyboard (WASD)"
    );
    assert_eq!(InputDevice::Gamepad(0).name(), "Gamepad 1");
    assert_eq!(InputDevice::Gamepad(11).name(), "Gamepad 12");
    assert_eq!(InputDevice::Mouse.name(), "Mouse");
    assert_eq!(InputDevice::Touch.name(), "Touch");

    assert_eq!(
        InputDevice::Keyboard(KeyboardScheme::WASD).description(),
        "Keyboard - W/A/S/D keys"
    );
    assert_eq!(
        InputDevice::Gamepad(0).description(),
        "Gamepad 1 (D-Pad + Analog Stick)"
    );
    assert_eq!(
        InputDevice::Mouse.description(),
        "Mouse (Click and drag for movement)"
    );
    assert_eq!(
        InputDevice::Touch.description(),
        "Touch (Tap and swipe gestures)"
    );

    // The custom scheme lists its numeric key codes.
    let custom = KeyboardScheme::Custom {
        up: KEY_T,
        down: KEY_G,
        left: KEY_F,
        right: KEY_H,
    };
    assert_eq!(custom.description(), "84/71/70/72");
}

#[test]
fn test_device_availability() {
    let devices = AvailableInputDevices {
        gamepads: vec![1],
        mouse: false,
        touch: true,
        keyboard: true,
    };
    assert!(InputDevice::Keyboard(KeyboardScheme::IJKL).is_available(&devices));
    assert!(InputDevice::Gamepad(0).is_available(&devices));
    assert!(!InputDevice::Gamepad(1).is_available(&devices));
    assert!(!InputDevice::Mouse.is_available(&devices));
    assert!(InputDevice::Touch.is_available(&devices));
}

#[test]
fn test_category_order() {
    assert_eq!(InputDeviceCategory::Keyboard.order(), 0);
    assert_eq!(InputDeviceCategory::Gamepad.order(), 1);
    assert_eq!(InputDeviceCategory::Pointing.order(), 2);
    assert_eq!(InputDeviceCategory::Touch.order(), 3);
    assert_eq!(InputDeviceCategory::Keyboard.name(), "Keyboard");
    assert_eq!(InputDeviceCategory::Pointing.name(), "Mouse");
}

#[test]
fn test_decimal_rendering() {
    assert_eq!(u64_to_decimal(0), "0");
    assert_eq!(u64_to_decimal(7), "7");
    assert_eq!(u64_to_decimal(10), "10");
    assert_eq!(u64_to_decimal(1234), "1234");
    assert_eq!(u64_to_decimal(1000000), "1000000");
}
