//! Per-player runtime input state: the controller record a sampler fills each
//! tick, the mapping record that assignment sync keeps up to date, the global
//! input settings, and the events the subsystem emits.

use vstd::prelude::*;
use crate::device::{InputDevice, KeyboardScheme};
use crate::math::Vec2Fixed;

verus! {

/// The source that last drove a controller: which keyboard scheme, which
/// gamepad (by host handle), mouse, or touch.
#[derive(Clone, Copy, Debug, PartialEq, Eq, Structural)]
pub enum InputSource {
    Keyboard(KeyboardScheme),
    Gamepad(u64),
    Mouse,
    Touch,
}

impl InputSource {
    /// The source's display name.
    pub open spec fn spec_name(self) -> Seq<char> {
        match self {
            InputSource::Keyboard(scheme) => "Keyboard ("@ + scheme.spec_name() + ")"@,
            InputSource::Gamepad(_) => "Gamepad"@,
            InputSource::Mouse => "Mouse"@,
            InputSource::Touch => "Touch"@,
        }
    }

    pub fn name(&self) -> (r: String)
        ensures
            r@ == self.spec_name(),
    {
        match self {
            InputSource::Keyboard(scheme) => {
                let mut s = String::from_str("Keyboard (");
                s.append(scheme.name());
                s.append(")");
                s
            },
            InputSource::Gamepad(_) => String::from_str("Gamepad"),
            InputSource::Mouse => String::from_str("Mouse"),
            InputSource::Touch => String::from_str("Touch"),
        }
    }
}

/// Per-player runtime input state: the movement vector and momentary action
/// flags the samplers fill each tick, and the source that last drove them.
#[derive(Clone, Copy, Debug, PartialEq, Eq, Structural)]
pub struct InputController {
    pub player_id: u32,
    pub movement: Vec2Fixed,
    pub primary_action: bool,
    pub secondary_action: bool,
    pub input_source: InputSource,
    pub enabled: bool,
}

impl Default for InputController {
    /// Player zero, idle, driven by the WASD keyboard scheme, enabled.
    fn default() -> (r: Self)
        ensures
            r == (InputController {
                player_id: 0,
                movement: Vec2Fixed::spec_zero(),
                primary_action: false,
                secondary_action: false,
                input_source: InputSource::Keyboard(KeyboardScheme::WASD),
                enabled: true,
            }),
    {
        InputController {
            player_id: 0,
            movement: Vec2Fixed::zero(),
            primary_action: false,
            secondary_action: false,
            input_source: InputSource::Keyboard(KeyboardScheme::WASD),
            enabled: true,
        }
    }
}

impl InputController {
    pub fn new(player_id: u32) -> (r: Self)
        ensures
            r == (InputController { player_id, ..Self::spec_default() }),
    {
        InputController { player_id, ..Self::default() }
    }

    /// The value `Default::default()` returns.
    pub open spec fn spec_default() -> Self {
        InputController {
            player_id: 0,
            movement: Vec2Fixed::spec_zero(),
            primary_action: false,
            secondary_action: false,
            input_source: InputSource::Keyboard(KeyboardScheme::WASD),
            enabled: true,
        }
    }

    pub fn with_input_source(self, source: InputSource) -> (r: Self)
        ensures
            r == (InputController { input_source: source, ..self }),
    {
        InputController { input_source: source, ..self }
    }

    pub fn enabled(self, enabled: bool) -> (r: Self)
        ensures
            r == (InputController { enabled, ..self }),
    {
        InputController { enabled, ..self }
    }

    /// Clear all input state: zero movement, both action flags down.
    pub fn clear(&mut self)
        ensures
            *final(self) == (InputController {
                movement: Vec2Fixed::spec_zero(),
                primary_action: false,
                secondary_action: false,
                ..*old(self)
            }),
    {
        self.movement = Vec2Fixed::zero();
        self.primary_action = false;
        self.secondary_action = false;
    }

    /// Whether any input is active.
    pub fn has_input(&self) -> (r: bool)
        ensures
            r == (self.movement != Vec2Fixed::spec_zero() || self.primary_action
                || self.secondary_action),
    {
        !(self.movement == Vec2Fixed::zero()) || self.primary_action || self.secondary_action
    }
}

/// Which devices feed a player: a primary device and an optional fallback.
/// Kept in sync from the assignment table (one way: table to mapping).
#[derive(Clone, Copy, Debug, PartialEq, Eq)]
pub struct PlayerInputMapping {
    pub player_id: u32,
    pub primary_device: Option<InputDevice>,
    pub secondary_device: Option<InputDevice>,
    pub enabled: bool,
}

impl Default for PlayerInputMapping {
    /// Player zero on the WASD keyboard scheme, no fallback, enabled.
    fn default() -> (r: Self)
        ensures
            r == PlayerInputMapping::spec_default(),
    {
        PlayerInputMapping {
            player_id: 0,
            primary_device: Some(InputDevice::Keyboard(KeyboardScheme::WASD)),
            secondary_device: None,
            enabled: true,
        }
    }
}

impl PlayerInputMapping {
    /// The value `Default::default()` returns.
    pub open spec fn spec_default() -> Self {
        PlayerInputMapping {
            player_id: 0,
            primary_device: Some(InputDevice::Keyboard(KeyboardScheme::WASD)),
            secondary_device: None,
            enabled: true,
        }
    }

    pub fn new(player_id: u32) -> (r: Self)
        ensures
            r == (PlayerInputMapping { player_id, ..Self::spec_default() }),
    {
        PlayerInputMapping { player_id, ..Self::default() }
    }

    pub fn with_primary_device(self, device: InputDevice) -> (r: Self)
        ensures
            r == (PlayerInputMapping { primary_device: Some(device), ..self }),
    {
        PlayerInputMapping { primary_device: Some(device), ..self }
    }

    pub fn with_secondary_device(self, device: Option<InputDevice>) -> (r: Self)
        ensures
            r == (PlayerInputMapping { secondary_device: device, ..self }),
    {
        PlayerInputMapping { secondary_device: device, ..self }
    }

    pub fn enabled(self, enabled: bool) -> (r: Self)
        ensures
            r == (PlayerInputMapping { enabled, ..self }),
    {
        PlayerInputMapping { enabled, ..self }
    }

    /// The device currently driving the player: the primary device when one
    /// is set, the fallback otherwise.
    pub open spec fn spec_active_device(self) -> Option<InputDevice> {
        match self.primary_device {
            Some(d) => Some(d),
            None => self.secondary_device,
        }
    }

    pub fn get_active_device(&self) -> (r: Option<InputDevice>)
        ensures
            r == self.spec_active_device(),
    {
        match self.primary_device {
            Some(d) => Some(d),
            None => self.secondary_device,
        }
    }
}

/// Global input tunables. The deadzone and threshold are fixed-point
/// magnitudes in thousandths of a unit.
#[derive(Clone, Copy, Debug, PartialEq, Eq, Structural)]
pub struct InputSettings {
    pub gamepad_deadzone: u32,
    pub movement_threshold: u32,
    pub auto_assign_devices: bool,
    pub allow_keyboard_sharing: bool,
}

impl Default for InputSettings {
    /// Deadzone 0.2, movement threshold 0.1, auto-assignment on, keyboard
    /// sharing allowed.
    fn default() -> (r: Self)
        ensures
            r == (InputSettings {
                gamepad_deadzone: 200,
                movement_threshold: 100,
                auto_assign_devices: true,
                allow_keyboard_sharing: true,
            }),
    {
        InputSettings {
            gamepad_deadzone: 200,
            movement_threshold: 100,
            auto_assign_devices: true,
            allow_keyboard_sharing: true,
        }
    }
}

/// Events the input subsystem emits for gameplay and configuration screens.
#[derive(Clone, Copy, Debug, PartialEq, Eq, Structural)]
pub enum InputEvent {
    /// Device assigned to player.
    DeviceAssigned { player_id: u32, device: InputDevice },
    /// Device unassigned from player.
    DeviceUnassigned { player_id: u32 },
    /// Primary action pressed.
    PrimaryAction { player_id: u32, source: InputSource },
    /// Secondary action pressed.
    SecondaryAction { player_id: u32, source: InputSource },
    /// Movement input.
    Movement { player_id: u32, direction: Vec2Fixed, source: InputSource },
}

/// Marker for input configuration screens.
pub struct InputConfigurationMarker;

/// An open input configuration screen's state.
#[derive(Clone, Copy, Debug, PartialEq, Eq, Structural)]
pub struct ActiveInputConfiguration {
    pub max_players: u32,
    pub current_players: u32,
}

/// Requests the configuration screen sends.
#[derive(Clone, Copy, Debug, PartialEq, Eq, Structural)]
pub enum InputConfigurationEvent {
    /// Open input configuration.
    Open,
    /// Close input configuration.
    Close,
    /// Device button clicked.
    DeviceAssigned { player_id: u32, device: InputDevice },
    /// Player device unassigned.
    DeviceUnassigned { player_id: u32 },
}

} // verus!
