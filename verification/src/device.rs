//! Input devices: keyboard schemes, gamepads, mouse and touch, and the
//! per-tick catalog of devices the platform currently offers.

use vstd::prelude::*;

verus! {

// Key codes, by their common keyboard-event numbers.
pub const KEY_BACKSPACE: u32 = 8;
pub const KEY_ENTER: u32 = 13;
pub const KEY_ESCAPE: u32 = 27;
pub const KEY_SPACE: u32 = 32;
pub const KEY_ARROW_LEFT: u32 = 37;
pub const KEY_ARROW_UP: u32 = 38;
pub const KEY_ARROW_RIGHT: u32 = 39;
pub const KEY_ARROW_DOWN: u32 = 40;
pub const KEY_A: u32 = 65;
pub const KEY_D: u32 = 68;
pub const KEY_F: u32 = 70;
pub const KEY_G: u32 = 71;
pub const KEY_H: u32 = 72;
pub const KEY_I: u32 = 73;
pub const KEY_J: u32 = 74;
pub const KEY_K: u32 = 75;
pub const KEY_L: u32 = 76;
pub const KEY_S: u32 = 83;
pub const KEY_T: u32 = 84;
pub const KEY_W: u32 = 87;

/// A keyboard control scheme: which four keys steer a player.
#[derive(Clone, Copy, Debug, PartialEq, Eq, Structural)]
pub enum KeyboardScheme {
    WASD,
    Arrows,
    IJKL,
    Custom { up: u32, down: u32, left: u32, right: u32 },
}

impl KeyboardScheme {
    /// The scheme's four direction keys, as (up, down, left, right).
    pub open spec fn spec_keys(self) -> (u32, u32, u32, u32) {
        match self {
            KeyboardScheme::WASD => (KEY_W, KEY_S, KEY_A, KEY_D),
            KeyboardScheme::Arrows => (KEY_ARROW_UP, KEY_ARROW_DOWN, KEY_ARROW_LEFT, KEY_ARROW_RIGHT),
            KeyboardScheme::IJKL => (KEY_I, KEY_K, KEY_J, KEY_L),
            KeyboardScheme::Custom { up, down, left, right } => (up, down, left, right),
        }
    }

    pub fn get_keys(&self) -> (r: (u32, u32, u32, u32))
        ensures
            r == self.spec_keys(),
    {
        match self {
            KeyboardScheme::WASD => (KEY_W, KEY_S, KEY_A, KEY_D),
            KeyboardScheme::Arrows => (KEY_ARROW_UP, KEY_ARROW_DOWN, KEY_ARROW_LEFT, KEY_ARROW_RIGHT),
            KeyboardScheme::IJKL => (KEY_I, KEY_K, KEY_J, KEY_L),
            KeyboardScheme::Custom { up, down, left, right } => (*up, *down, *left, *right),
        }
    }

    /// The scheme's display name.
    pub open spec fn spec_name(self) -> Seq<char> {
        match self {
            KeyboardScheme::WASD => "WASD"@,
            KeyboardScheme::Arrows => "Arrow Keys"@,
            KeyboardScheme::IJKL => "IJKL"@,
            KeyboardScheme::Custom { .. } => "Custom Keys"@,
        }
    }

    pub fn name(&self) -> (r: &'static str)
        ensures
            r@ == self.spec_name(),
    {
        match self {
            KeyboardScheme::WASD => "WASD",
            KeyboardScheme::Arrows => "Arrow Keys",
            KeyboardScheme::IJKL => "IJKL",
            KeyboardScheme::Custom { .. } => "Custom Keys",
        }
    }

    /// A description of the key layout. A custom scheme lists its four key
    /// codes, up/down/left/right.
    pub open spec fn spec_description(self) -> Seq<char> {
        match self {
            KeyboardScheme::WASD => "W/A/S/D keys"@,
            KeyboardScheme::Arrows => "Arrow keys"@,
            KeyboardScheme::IJKL => "I/J/K/L keys"@,
            KeyboardScheme::Custom { up, down, left, right } => spec_decimal(up as nat) + "/"@
                + spec_decimal(down as nat) + "/"@ + spec_decimal(left as nat) + "/"@
                + spec_decimal(right as nat),
        }
    }

    pub fn description(&self) -> (r: String)
        ensures
            r@ == self.spec_description(),
    {
        let mut s = String::from_str("");
        proof {
            reveal_strlit("");
            assert(s@ =~= Seq::<char>::empty());
        }
        push_scheme_description(self, &mut s);
        proof {
            assert(s@ =~= self.spec_description());
        }
        s
    }
}

/// Append a keyboard scheme's layout description.
fn push_scheme_description(scheme: &KeyboardScheme, out: &mut String)
    ensures
        final(out)@ == old(out)@ + scheme.spec_description(),
{
    match scheme {
        KeyboardScheme::WASD => out.append("W/A/S/D keys"),
        KeyboardScheme::Arrows => out.append("Arrow keys"),
        KeyboardScheme::IJKL => out.append("I/J/K/L keys"),
        KeyboardScheme::Custom { up, down, left, right } => {
            push_decimal(*up as u64, out);
            out.append("/");
            push_decimal(*down as u64, out);
            out.append("/");
            push_decimal(*left as u64, out);
            out.append("/");
            push_decimal(*right as u64, out);
            proof {
                assert(out@ =~= old(out)@ + scheme.spec_description());
            }
        },
    }
}

/// The decimal digit character for `d`.
pub open spec fn spec_digit_char(d: nat) -> char {
    if d == 0 {
        '0'
    } else if d == 1 {
        '1'
    } else if d == 2 {
        '2'
    } else if d == 3 {
        '3'
    } else if d == 4 {
        '4'
    } else if d == 5 {
        '5'
    } else if d == 6 {
        '6'
    } else if d == 7 {
        '7'
    } else if d == 8 {
        '8'
    } else {
        '9'
    }
}

/// The decimal rendering of `n`, most significant digit first, no leading
/// zeros (except for zero itself).
pub open spec fn spec_decimal(n: nat) -> Seq<char>
    decreases n,
{
    if n < 10 {
        seq![spec_digit_char(n)]
    } else {
        spec_decimal(n / 10) + seq![spec_digit_char(n % 10)]
    }
}

/// The decimal digit `d` as a string slice.
fn digit_str(d: u64) -> (r: &'static str)
    requires
        d < 10,
    ensures
        r@ == seq![spec_digit_char(d as nat)],
{
    let r: &'static str = if d == 0 {
        "0"
    } else if d == 1 {
        "1"
    } else if d == 2 {
        "2"
    } else if d == 3 {
        "3"
    } else if d == 4 {
        "4"
    } else if d == 5 {
        "5"
    } else if d == 6 {
        "6"
    } else if d == 7 {
        "7"
    } else if d == 8 {
        "8"
    } else {
        "9"
    };
    proof {
        reveal_strlit("0");
        reveal_strlit("1");
        reveal_strlit("2");
        reveal_strlit("3");
        reveal_strlit("4");
        reveal_strlit("5");
        reveal_strlit("6");
        reveal_strlit("7");
        reveal_strlit("8");
        reveal_strlit("9");
        assert(r@ =~= seq![spec_digit_char(d as nat)]);
    }
    r
}

/// Append the decimal rendering of `n`.
fn push_decimal(n: u64, out: &mut String)
    ensures
        final(out)@ == old(out)@ + spec_decimal(n as nat),
    decreases n,
{
    if n < 10 {
        out.append(digit_str(n));
        proof {
            assert(out@ =~= old(out)@ + spec_decimal(n as nat));
        }
    } else {
        proof {
            assert(n / 10 < n && n / 10 >= 1) by (nonlinear_arith)
                requires n >= 10;
        }
        push_decimal(n / 10, out);
        out.append(digit_str(n % 10));
        proof {
            assert(out@ =~= old(out)@ + spec_decimal(n as nat));
        }
    }
}

/// The decimal rendering of `n`.
pub fn u64_to_decimal(n: u64) -> (r: String)
    ensures
        r@ == spec_decimal(n as nat),
{
    let mut out = String::from_str("");
    proof {
        reveal_strlit("");
        assert(out@ =~= Seq::<char>::empty());
    }
    push_decimal(n, &mut out);
    proof {
        assert(out@ =~= spec_decimal(n as nat));
    }
    out
}

/// An abstract input source a player can be assigned: a keyboard scheme, a
/// gamepad slot (by its position in the connection order), mouse, or touch.
#[derive(Clone, Copy, Debug, PartialEq, Eq, Structural)]
pub enum InputDevice {
    Keyboard(KeyboardScheme),
    Gamepad(u32),
    Mouse,
    Touch,
}

/// Categories for grouping input devices.
#[derive(Clone, Copy, Debug, PartialEq, Eq, Hash, Structural)]
pub enum InputDeviceCategory {
    Keyboard,
    Gamepad,
    Pointing,
    Touch,
}

impl InputDevice {
    /// The category of this device.
    pub open spec fn spec_category(self) -> InputDeviceCategory {
        match self {
            InputDevice::Keyboard(_) => InputDeviceCategory::Keyboard,
            InputDevice::Gamepad(_) => InputDeviceCategory::Gamepad,
            InputDevice::Mouse => InputDeviceCategory::Pointing,
            InputDevice::Touch => InputDeviceCategory::Touch,
        }
    }

    pub fn category(&self) -> (r: InputDeviceCategory)
        ensures
            r == self.spec_category(),
    {
        match self {
            InputDevice::Keyboard(_) => InputDeviceCategory::Keyboard,
            InputDevice::Gamepad(_) => InputDeviceCategory::Gamepad,
            InputDevice::Mouse => InputDeviceCategory::Pointing,
            InputDevice::Touch => InputDeviceCategory::Touch,
        }
    }

    /// The device's display name. Gamepads are numbered from one.
    pub open spec fn spec_name(self) -> Seq<char> {
        match self {
            InputDevice::Keyboard(scheme) => "Keyboard ("@ + scheme.spec_name() + ")"@,
            InputDevice::Gamepad(id) => "Gamepad "@ + spec_decimal(id as nat + 1),
            InputDevice::Mouse => "Mouse"@,
            InputDevice::Touch => "Touch"@,
        }
    }

    pub fn name(&self) -> (r: String)
        ensures
            r@ == self.spec_name(),
    {
        match self {
            InputDevice::Keyboard(scheme) => {
                let mut s = String::from_str("Keyboard (");
                s.append(scheme.name());
                s.append(")");
                s
            },
            InputDevice::Gamepad(id) => {
                let mut s = String::from_str("Gamepad ");
                push_decimal(*id as u64 + 1, &mut s);
                s
            },
            InputDevice::Mouse => String::from_str("Mouse"),
            InputDevice::Touch => String::from_str("Touch"),
        }
    }

    /// A detailed description of the device.
    pub open spec fn spec_description(self) -> Seq<char> {
        match self {
            InputDevice::Keyboard(scheme) => "Keyboard - "@ + scheme.spec_description(),
            InputDevice::Gamepad(id) => "Gamepad "@ + spec_decimal(id as nat + 1)
                + " (D-Pad + Analog Stick)"@,
            InputDevice::Mouse => "Mouse (Click and drag for movement)"@,
            InputDevice::Touch => "Touch (Tap and swipe gestures)"@,
        }
    }

    pub fn description(&self) -> (r: String)
        ensures
            r@ == self.spec_description(),
    {
        match self {
            InputDevice::Keyboard(scheme) => {
                let mut s = String::from_str("Keyboard - ");
                push_scheme_description(scheme, &mut s);
                s
            },
            InputDevice::Gamepad(id) => {
                let mut s = String::from_str("Gamepad ");
                push_decimal(*id as u64 + 1, &mut s);
                s.append(" (D-Pad + Analog Stick)");
                s
            },
            InputDevice::Mouse => String::from_str("Mouse (Click and drag for movement)"),
            InputDevice::Touch => String::from_str("Touch (Tap and swipe gestures)"),
        }
    }

    /// Whether this device is usable given the current catalog.
    pub open spec fn spec_is_available(self, available: AvailableInputDevices) -> bool {
        match self {
            InputDevice::Keyboard(_) => available.keyboard,
            InputDevice::Gamepad(id) => (id as int) < available.gamepads@.len(),
            InputDevice::Mouse => available.mouse,
            InputDevice::Touch => available.touch,
        }
    }

    pub fn is_available(&self, available_devices: &AvailableInputDevices) -> (r: bool)
        ensures
            r == self.spec_is_available(*available_devices),
    {
        match self {
            InputDevice::Keyboard(_) => available_devices.keyboard,
            InputDevice::Gamepad(id) => (*id as usize) < available_devices.gamepads.len(),
            InputDevice::Mouse => available_devices.mouse,
            InputDevice::Touch => available_devices.touch,
        }
    }
}

impl InputDeviceCategory {
    /// The category's display name.
    pub open spec fn spec_name(self) -> Seq<char> {
        match self {
            InputDeviceCategory::Keyboard => "Keyboard"@,
            InputDeviceCategory::Gamepad => "Gamepad"@,
            InputDeviceCategory::Pointing => "Mouse"@,
            InputDeviceCategory::Touch => "Touch"@,
        }
    }

    pub fn name(&self) -> (r: &'static str)
        ensures
            r@ == self.spec_name(),
    {
        match self {
            InputDeviceCategory::Keyboard => "Keyboard",
            InputDeviceCategory::Gamepad => "Gamepad",
            InputDeviceCategory::Pointing => "Mouse",
            InputDeviceCategory::Touch => "Touch",
        }
    }

    /// The category's icon.
    pub open spec fn spec_icon(self) -> Seq<char> {
        match self {
            InputDeviceCategory::Keyboard => "\u{2328}\u{fe0f}"@,
            InputDeviceCategory::Gamepad => "\u{1f3ae}"@,
            InputDeviceCategory::Pointing => "\u{1f5b1}\u{fe0f}"@,
            InputDeviceCategory::Touch => "\u{1f446}"@,
        }
    }

    pub fn icon(&self) -> (r: &'static str)
        ensures
            r@ == self.spec_icon(),
    {
        match self {
            InputDeviceCategory::Keyboard => "\u{2328}\u{fe0f}",
            InputDeviceCategory::Gamepad => "\u{1f3ae}",
            InputDeviceCategory::Pointing => "\u{1f5b1}\u{fe0f}",
            InputDeviceCategory::Touch => "\u{1f446}",
        }
    }

    /// The display order for consistent layout.
    pub open spec fn spec_order(self) -> u8 {
        match self {
            InputDeviceCategory::Keyboard => 0u8,
            InputDeviceCategory::Gamepad => 1u8,
            InputDeviceCategory::Pointing => 2u8,
            InputDeviceCategory::Touch => 3u8,
        }
    }

    pub fn order(&self) -> (r: u8)
        ensures
            r == self.spec_order(),
    {
        match self {
            InputDeviceCategory::Keyboard => 0,
            InputDeviceCategory::Gamepad => 1,
            InputDeviceCategory::Pointing => 2,
            InputDeviceCategory::Touch => 3,
        }
    }
}

/// The catalog of input devices the platform currently offers: the connected
/// gamepads (by host handle, in connection order) and whether a keyboard,
/// mouse and touch surface are present. Recomputed every tick.
#[derive(Clone, Debug)]
pub struct AvailableInputDevices {
    pub gamepads: Vec<u64>,
    pub mouse: bool,
    pub touch: bool,
    pub keyboard: bool,
}

impl Default for AvailableInputDevices {
    /// An empty catalog: no devices at all.
    fn default() -> (r: Self)
        ensures
            r.gamepads@ == Seq::<u64>::empty(),
            !r.mouse,
            !r.touch,
            !r.keyboard,
    {
        AvailableInputDevices::new()
    }
}

/// The custom keyboard preset offered alongside the three fixed schemes.
pub open spec fn spec_custom_preset() -> KeyboardScheme {
    KeyboardScheme::Custom { up: KEY_T, down: KEY_G, left: KEY_F, right: KEY_H }
}

impl AvailableInputDevices {
    /// An empty catalog: no devices at all.
    pub fn new() -> (r: AvailableInputDevices)
        ensures
            r.gamepads@ == Seq::<u64>::empty(),
            !r.mouse,
            !r.touch,
            !r.keyboard,
    {
        AvailableInputDevices { gamepads: Vec::new(), mouse: false, touch: false, keyboard: false }
    }

    /// The catalog's fixed enumeration order: keyboard schemes first (the
    /// three fixed schemes, then the custom preset), then one entry per
    /// connected gamepad in connection order, then mouse, then touch.
    pub open spec fn spec_device_list(self) -> Seq<InputDevice> {
        (if self.keyboard {
            seq![
                InputDevice::Keyboard(KeyboardScheme::WASD),
                InputDevice::Keyboard(KeyboardScheme::Arrows),
                InputDevice::Keyboard(KeyboardScheme::IJKL),
                InputDevice::Keyboard(spec_custom_preset()),
            ]
        } else {
            Seq::<InputDevice>::empty()
        }) + Seq::<InputDevice>::new(
            self.gamepads@.len(),
            |i: int| InputDevice::Gamepad(i as u32),
        ) + (if self.mouse {
            seq![InputDevice::Mouse]
        } else {
            Seq::<InputDevice>::empty()
        }) + (if self.touch {
            seq![InputDevice::Touch]
        } else {
            Seq::<InputDevice>::empty()
        })
    }

    /// List the currently usable devices, in the fixed enumeration order that
    /// automatic assignment depends on.
    pub fn get_available_devices(&self) -> (r: Vec<InputDevice>)
        requires
            self.gamepads@.len() <= u32::MAX,
        ensures
            r@ == self.spec_device_list(),
    {
        let mut devices: Vec<InputDevice> = Vec::new();

        if self.keyboard {
            devices.push(InputDevice::Keyboard(KeyboardScheme::WASD));
            devices.push(InputDevice::Keyboard(KeyboardScheme::Arrows));
            devices.push(InputDevice::Keyboard(KeyboardScheme::IJKL));
            devices.push(InputDevice::Keyboard(KeyboardScheme::Custom {
                up: KEY_T,
                down: KEY_G,
                left: KEY_F,
                right: KEY_H,
            }));
        }
        let ghost kb_part = devices@;

        let mut index: usize = 0;
        while index < self.gamepads.len()
            invariant
                index <= self.gamepads@.len(),
                self.gamepads@.len() <= u32::MAX,
                devices@ == kb_part + Seq::<InputDevice>::new(
                    index as nat,
                    |i: int| InputDevice::Gamepad(i as u32),
                ),
            decreases self.gamepads@.len() - index,
    {
            devices.push(InputDevice::Gamepad(index as u32));
            proof {
                assert(devices@ =~= kb_part + Seq::<InputDevice>::new(
                    (index + 1) as nat,
                    |i: int| InputDevice::Gamepad(i as u32),
                ));
            }
            index = index + 1;
        }

        if self.mouse {
            devices.push(InputDevice::Mouse);
        }
        if self.touch {
            devices.push(InputDevice::Touch);
        }

        proof {
            assert(devices@ =~= self.spec_device_list());
        }
        devices
    }

    /// Refresh the platform availability bits. A keyboard is taken to be
    /// present on every supported platform; mouse and touch presence come
    /// from the host.
    pub fn update_availability(&mut self, mouse: bool, touch: bool)
        ensures
            final(self).keyboard,
            final(self).mouse == mouse,
            final(self).touch == touch,
            final(self).gamepads@ == old(self).gamepads@,
    {
        self.keyboard = true;
        self.mouse = mouse;
        self.touch = touch;
    }
}

} // verus!
