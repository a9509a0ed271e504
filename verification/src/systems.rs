//! The per-tick systems: sampling keyboard and gamepad state into controller
//! movement and actions, refreshing the device catalog, automatic device
//! assignment, assignment-to-mapping sync, configuration requests, and the
//! end-of-tick action clear.
//!
//! Within one tick the phases run in a fixed order: catalog refresh, then
//! assignment policy and mapping sync, then sampling, then the action clear.

use vstd::prelude::*;
use crate::assignment::{InputDeviceAssignment, spec_assign, spec_holds_device};
use crate::buttons::{
    ButtonStates, BTN_SOUTH, BTN_EAST, BTN_SELECT, BTN_START, BTN_DPAD_UP, BTN_DPAD_DOWN,
    BTN_DPAD_LEFT, BTN_DPAD_RIGHT,
};
use crate::controller::{
    InputController, InputConfigurationEvent, InputEvent, InputSettings, InputSource,
    PlayerInputMapping,
};
use crate::device::{
    AvailableInputDevices, InputDevice, KeyboardScheme, KEY_BACKSPACE, KEY_ENTER, KEY_ESCAPE,
    KEY_SPACE,
};
use crate::math::{spec_abs, spec_keyboard_vec, keyboard_vec, Vec2Fixed, UNIT};

verus! {

/// The keyboard scheme a mapping resolves to: from the primary device when it
/// is a keyboard, else from the secondary.
pub open spec fn spec_mapping_keyboard_scheme(m: PlayerInputMapping) -> Option<KeyboardScheme> {
    match m.primary_device {
        Some(InputDevice::Keyboard(s)) => Some(s),
        _ => match m.secondary_device {
            Some(InputDevice::Keyboard(s)) => Some(s),
            _ => None,
        },
    }
}

/// The gamepad slot a mapping resolves to: from the primary device when it is
/// a gamepad, else from the secondary.
pub open spec fn spec_mapping_gamepad(m: PlayerInputMapping) -> Option<u32> {
    match m.primary_device {
        Some(InputDevice::Gamepad(id)) => Some(id),
        _ => match m.secondary_device {
            Some(InputDevice::Gamepad(id)) => Some(id),
            _ => None,
        },
    }
}

/// A controller after one movement reading `mv` from source `src`: above the
/// movement threshold the reading is stored and the source recorded; at or
/// below it the stored movement is zeroed, but only when `src` is the source
/// that wrote it — an idle device never clobbers another device's movement.
pub open spec fn spec_apply_movement(
    c: InputController,
    mv: Vec2Fixed,
    src: InputSource,
    threshold: u32,
) -> InputController {
    if mv.spec_mag2() > threshold * threshold {
        InputController { movement: mv, input_source: src, ..c }
    } else if c.input_source == src {
        InputController { movement: Vec2Fixed::spec_zero(), ..c }
    } else {
        c
    }
}

/// The events one movement reading emits: one `Movement` event when the
/// reading is above the threshold, none otherwise.
pub open spec fn spec_movement_events(
    c: InputController,
    mv: Vec2Fixed,
    src: InputSource,
    threshold: u32,
) -> Seq<InputEvent> {
    if mv.spec_mag2() > threshold * threshold {
        seq![InputEvent::Movement { player_id: c.player_id, direction: mv, source: src }]
    } else {
        Seq::<InputEvent>::empty()
    }
}

/// A controller after an action reading: when the button edge fired, the flag
/// is raised and the source recorded.
pub open spec fn spec_apply_primary(c: InputController, fire: bool, src: InputSource) -> InputController {
    if fire {
        InputController { primary_action: true, input_source: src, ..c }
    } else {
        c
    }
}

pub open spec fn spec_apply_secondary(c: InputController, fire: bool, src: InputSource) -> InputController {
    if fire {
        InputController { secondary_action: true, input_source: src, ..c }
    } else {
        c
    }
}

/// One keyboard sampling step for one controller: the full transition of the
/// controller record, as a function of the raw key state.
pub open spec fn spec_sample_keyboard(
    c: InputController,
    m: PlayerInputMapping,
    kb: ButtonStates,
    s: InputSettings,
) -> (InputController, Seq<InputEvent>) {
    if !c.enabled || !m.enabled {
        (c, Seq::<InputEvent>::empty())
    } else {
        match spec_mapping_keyboard_scheme(m) {
            None => (c, Seq::<InputEvent>::empty()),
            Some(scheme) => {
                let keys = scheme.spec_keys();
                let mv = spec_keyboard_vec(
                    kb.spec_pressed(keys.0),
                    kb.spec_pressed(keys.1),
                    kb.spec_pressed(keys.2),
                    kb.spec_pressed(keys.3),
                );
                let src = InputSource::Keyboard(scheme);
                let c1 = spec_apply_movement(c, mv, src, s.movement_threshold);
                let e1 = spec_movement_events(c, mv, src, s.movement_threshold);
                let fire_p = kb.spec_just_pressed(KEY_SPACE) || kb.spec_just_pressed(KEY_ENTER);
                let fire_s = kb.spec_just_pressed(KEY_ESCAPE) || kb.spec_just_pressed(
                    KEY_BACKSPACE,
                );
                let c2 = spec_apply_primary(c1, fire_p, src);
                let c3 = spec_apply_secondary(c2, fire_s, src);
                let e2 = if fire_p {
                    seq![InputEvent::PrimaryAction { player_id: c.player_id, source: src }]
                } else {
                    Seq::<InputEvent>::empty()
                };
                let e3 = if fire_s {
                    seq![InputEvent::SecondaryAction { player_id: c.player_id, source: src }]
                } else {
                    Seq::<InputEvent>::empty()
                };
                (c3, e1 + e2 + e3)
            },
        }
    }
}

/// Sample one controller's keyboard input: movement from the scheme's four
/// direction keys (normalized, thresholded, source-gated) and edge-triggered
/// confirm/cancel actions.
pub fn sample_keyboard(
    controller: &mut InputController,
    mapping: &PlayerInputMapping,
    keyboard: &ButtonStates,
    settings: &InputSettings,
    events: &mut Vec<InputEvent>,
)
    ensures
        *final(controller) == spec_sample_keyboard(
            *old(controller),
            *mapping,
            *keyboard,
            *settings,
        ).0,
        final(events)@ == old(events)@ + spec_sample_keyboard(
            *old(controller),
            *mapping,
            *keyboard,
            *settings,
        ).1,
{
    proof {
        assert(events@ =~= events@ + Seq::<InputEvent>::empty());
    }
    if !controller.enabled || !mapping.enabled {
        return;
    }
    let scheme_opt: Option<KeyboardScheme> = match mapping.primary_device {
        Some(InputDevice::Keyboard(s)) => Some(s),
        _ => match mapping.secondary_device {
            Some(InputDevice::Keyboard(s)) => Some(s),
            _ => None,
        },
    };
    let scheme = match scheme_opt {
        Some(s) => s,
        None => {
            return;
        },
    };
    let (up, down, left, right) = scheme.get_keys();
    let mv = keyboard_vec(
        keyboard.pressed(up),
        keyboard.pressed(down),
        keyboard.pressed(left),
        keyboard.pressed(right),
    );
    let src = InputSource::Keyboard(scheme);
    if mv.exceeds(settings.movement_threshold) {
        controller.movement = mv;
        controller.input_source = src;
        events.push(
            InputEvent::Movement { player_id: controller.player_id, direction: mv, source: src },
        );
    } else if controller.input_source == src {
        controller.movement = Vec2Fixed::zero();
    }
    let fire_p = keyboard.just_pressed(KEY_SPACE) || keyboard.just_pressed(KEY_ENTER);
    if fire_p {
        controller.primary_action = true;
        controller.input_source = src;
        events.push(InputEvent::PrimaryAction { player_id: controller.player_id, source: src });
    }
    let fire_s = keyboard.just_pressed(KEY_ESCAPE) || keyboard.just_pressed(KEY_BACKSPACE);
    if fire_s {
        controller.secondary_action = true;
        controller.input_source = src;
        events.push(InputEvent::SecondaryAction { player_id: controller.player_id, source: src });
    }
    proof {
        assert(events@ =~= old(events)@ + spec_sample_keyboard(
            *old(controller),
            *mapping,
            *keyboard,
            *settings,
        ).1);
    }
}

/// One gamepad's raw state for a tick: the host's handle for it, its button
/// states, and its left analog stick in fixed-point coordinates.
#[derive(Clone, Debug)]
pub struct GamepadState {
    pub entity: u64,
    pub buttons: ButtonStates,
    pub stick_x: i32,
    pub stick_y: i32,
}

impl GamepadState {
    /// Raw stick coordinates stay within one unit per axis.
    pub open spec fn wf(&self) -> bool {
        spec_abs(self.stick_x as int) <= UNIT && spec_abs(self.stick_y as int) <= UNIT
    }

    /// The stick reading as a vector.
    pub open spec fn spec_stick(&self) -> Vec2Fixed {
        Vec2Fixed { x: self.stick_x, y: self.stick_y }
    }
}

/// The D-pad contribution to movement: one unit per pressed direction,
/// signed per axis.
pub open spec fn spec_dpad_vec(up: bool, down: bool, left: bool, right: bool) -> Vec2Fixed {
    Vec2Fixed {
        x: (((if right { 1int } else { 0int }) - (if left { 1int } else { 0int })) * UNIT) as i32,
        y: (((if up { 1int } else { 0int }) - (if down { 1int } else { 0int })) * UNIT) as i32,
    }
}

/// A gamepad's raw movement sum, before clamping: the D-pad vector, plus the
/// stick when its magnitude strictly exceeds the deadzone. A stick magnitude
/// exactly at the deadzone does not register.
pub open spec fn spec_gamepad_raw_sum(g: GamepadState, deadzone: u32) -> Vec2Fixed {
    let dpad = spec_dpad_vec(
        g.buttons.spec_pressed(BTN_DPAD_UP),
        g.buttons.spec_pressed(BTN_DPAD_DOWN),
        g.buttons.spec_pressed(BTN_DPAD_LEFT),
        g.buttons.spec_pressed(BTN_DPAD_RIGHT),
    );
    if g.spec_stick().spec_mag2() > deadzone * deadzone {
        Vec2Fixed { x: (dpad.x + g.stick_x) as i32, y: (dpad.y + g.stick_y) as i32 }
    } else {
        dpad
    }
}

/// A gamepad's combined movement reading: the raw D-pad-plus-stick sum,
/// clamped to unit length (never renormalized upward).
pub open spec fn spec_gamepad_move_vec(g: GamepadState, deadzone: u32) -> Vec2Fixed {
    spec_gamepad_raw_sum(g, deadzone).spec_clamp()
}

/// One gamepad sampling step for one controller: the full transition of the
/// controller record, as a function of the raw gamepad states.
pub open spec fn spec_sample_gamepad(
    c: InputController,
    m: PlayerInputMapping,
    pads: Seq<GamepadState>,
    s: InputSettings,
) -> (InputController, Seq<InputEvent>) {
    if !c.enabled || !m.enabled {
        (c, Seq::<InputEvent>::empty())
    } else {
        match spec_mapping_gamepad(m) {
            None => (c, Seq::<InputEvent>::empty()),
            Some(id) => {
                if id >= pads.len() {
                    (c, Seq::<InputEvent>::empty())
                } else {
                    let g = pads[id as int];
                    let mv = spec_gamepad_move_vec(g, s.gamepad_deadzone);
                    let src = InputSource::Gamepad(g.entity);
                    let c1 = spec_apply_movement(c, mv, src, s.movement_threshold);
                    let e1 = spec_movement_events(c, mv, src, s.movement_threshold);
                    let fire_p = g.buttons.spec_just_pressed(BTN_SOUTH)
                        || g.buttons.spec_just_pressed(BTN_START);
                    let fire_s = g.buttons.spec_just_pressed(BTN_EAST)
                        || g.buttons.spec_just_pressed(BTN_SELECT);
                    let c2 = spec_apply_primary(c1, fire_p, src);
                    let c3 = spec_apply_secondary(c2, fire_s, src);
                    let e2 = if fire_p {
                        seq![InputEvent::PrimaryAction { player_id: c.player_id, source: src }]
                    } else {
                        Seq::<InputEvent>::empty()
                    };
                    let e3 = if fire_s {
                        seq![InputEvent::SecondaryAction { player_id: c.player_id, source: src }]
                    } else {
                        Seq::<InputEvent>::empty()
                    };
                    (c3, e1 + e2 + e3)
                }
            },
        }
    }
}

/// Sample one controller's gamepad input: D-pad plus deadzoned stick, clamped
/// to unit length, thresholded and source-gated, with edge-triggered actions.
pub fn sample_gamepad(
    controller: &mut InputController,
    mapping: &PlayerInputMapping,
    gamepads: &Vec<GamepadState>,
    settings: &InputSettings,
    events: &mut Vec<InputEvent>,
)
    requires
        forall|i: int| 0 <= i < gamepads@.len() ==> (#[trigger] gamepads@[i]).wf(),
    ensures
        *final(controller) == spec_sample_gamepad(
            *old(controller),
            *mapping,
            gamepads@,
            *settings,
        ).0,
        final(events)@ == old(events)@ + spec_sample_gamepad(
            *old(controller),
            *mapping,
            gamepads@,
            *settings,
        ).1,
{
    proof {
        assert(events@ =~= events@ + Seq::<InputEvent>::empty());
    }
    if !controller.enabled || !mapping.enabled {
        return;
    }
    let id_opt: Option<u32> = match mapping.primary_device {
        Some(InputDevice::Gamepad(id)) => Some(id),
        _ => match mapping.secondary_device {
            Some(InputDevice::Gamepad(id)) => Some(id),
            _ => None,
        },
    };
    let id = match id_opt {
        Some(id) => id,
        None => {
            return;
        },
    };
    if (id as usize) >= gamepads.len() {
        return;
    }
    let g = &gamepads[id as usize];
    let mv = gamepad_move_vec(g, settings.gamepad_deadzone);
    let src = InputSource::Gamepad(g.entity);
    if mv.exceeds(settings.movement_threshold) {
        controller.movement = mv;
        controller.input_source = src;
        events.push(
            InputEvent::Movement { player_id: controller.player_id, direction: mv, source: src },
        );
    } else if controller.input_source == src {
        controller.movement = Vec2Fixed::zero();
    }
    let fire_p = g.buttons.just_pressed(BTN_SOUTH) || g.buttons.just_pressed(BTN_START);
    if fire_p {
        controller.primary_action = true;
        controller.input_source = src;
        events.push(InputEvent::PrimaryAction { player_id: controller.player_id, source: src });
    }
    let fire_s = g.buttons.just_pressed(BTN_EAST) || g.buttons.just_pressed(BTN_SELECT);
    if fire_s {
        controller.secondary_action = true;
        controller.input_source = src;
        events.push(InputEvent::SecondaryAction { player_id: controller.player_id, source: src });
    }
    proof {
        assert(events@ =~= old(events)@ + spec_sample_gamepad(
            *old(controller),
            *mapping,
            gamepads@,
            *settings,
        ).1);
    }
}

/// The events keyboard sampling of the first `n` controllers emits, in order.
pub open spec fn spec_keyboard_events(
    cs: Seq<InputController>,
    ms: Seq<PlayerInputMapping>,
    kb: ButtonStates,
    s: InputSettings,
    n: int,
) -> Seq<InputEvent>
    decreases n,
{
    if n <= 0 {
        Seq::<InputEvent>::empty()
    } else {
        spec_keyboard_events(cs, ms, kb, s, n - 1) + spec_sample_keyboard(
            cs[n - 1],
            ms[n - 1],
            kb,
            s,
        ).1
    }
}

/// Sample keyboard input for every controller, in order. `mappings[i]` is the
/// mapping of `controllers[i]`.
pub fn handle_keyboard_input(
    controllers: &mut Vec<InputController>,
    mappings: &Vec<PlayerInputMapping>,
    keyboard: &ButtonStates,
    settings: &InputSettings,
    events: &mut Vec<InputEvent>,
)
    requires
        old(controllers)@.len() == mappings@.len(),
    ensures
        final(controllers)@.len() == old(controllers)@.len(),
        forall|i: int|
            0 <= i < old(controllers)@.len() ==> final(controllers)@[i] == spec_sample_keyboard(
                old(controllers)@[i],
                mappings@[i],
                *keyboard,
                *settings,
            ).0,
        final(events)@ == old(events)@ + spec_keyboard_events(
            old(controllers)@,
            mappings@,
            *keyboard,
            *settings,
            old(controllers)@.len() as int,
        ),
{
    let ghost cs0 = controllers@;
    let ghost es0 = events@;
    proof {
        assert(events@ =~= es0 + spec_keyboard_events(cs0, mappings@, *keyboard, *settings, 0));
    }
    let mut i: usize = 0;
    while i < controllers.len()
        invariant
            i <= cs0.len(),
            controllers@.len() == cs0.len(),
            cs0.len() == mappings@.len(),
            forall|j: int|
                0 <= j < i ==> controllers@[j] == spec_sample_keyboard(
                    cs0[j],
                    mappings@[j],
                    *keyboard,
                    *settings,
                ).0,
            forall|j: int| i <= j < cs0.len() ==> controllers@[j] == cs0[j],
            events@ == es0 + spec_keyboard_events(cs0, mappings@, *keyboard, *settings, i as int),
        decreases cs0.len() - i,
    {
        let ghost es_pre = events@;
        let mut c = controllers[i];
        sample_keyboard(&mut c, &mappings[i], keyboard, settings, events);
        controllers.set(i, c);
        proof {
            assert(events@ =~= es0 + spec_keyboard_events(
                cs0,
                mappings@,
                *keyboard,
                *settings,
                i + 1,
            ));
        }
        i = i + 1;
    }
}

/// The events gamepad sampling of the first `n` controllers emits, in order.
pub open spec fn spec_gamepad_events(
    cs: Seq<InputController>,
    ms: Seq<PlayerInputMapping>,
    pads: Seq<GamepadState>,
    s: InputSettings,
    n: int,
) -> Seq<InputEvent>
    decreases n,
{
    if n <= 0 {
        Seq::<InputEvent>::empty()
    } else {
        spec_gamepad_events(cs, ms, pads, s, n - 1) + spec_sample_gamepad(
            cs[n - 1],
            ms[n - 1],
            pads,
            s,
        ).1
    }
}

/// Sample gamepad input for every controller, in order. `mappings[i]` is the
/// mapping of `controllers[i]`; a mapping's gamepad slot indexes `gamepads`.
pub fn handle_gamepad_input(
    controllers: &mut Vec<InputController>,
    mappings: &Vec<PlayerInputMapping>,
    gamepads: &Vec<GamepadState>,
    settings: &InputSettings,
    events: &mut Vec<InputEvent>,
)
    requires
        old(controllers)@.len() == mappings@.len(),
        forall|i: int| 0 <= i < gamepads@.len() ==> (#[trigger] gamepads@[i]).wf(),
    ensures
        final(controllers)@.len() == old(controllers)@.len(),
        forall|i: int|
            0 <= i < old(controllers)@.len() ==> final(controllers)@[i] == spec_sample_gamepad(
                old(controllers)@[i],
                mappings@[i],
                gamepads@,
                *settings,
            ).0,
        final(events)@ == old(events)@ + spec_gamepad_events(
            old(controllers)@,
            mappings@,
            gamepads@,
            *settings,
            old(controllers)@.len() as int,
        ),
{
    let ghost cs0 = controllers@;
    let ghost es0 = events@;
    proof {
        assert(events@ =~= es0 + spec_gamepad_events(cs0, mappings@, gamepads@, *settings, 0));
    }
    let mut i: usize = 0;
    while i < controllers.len()
        invariant
            i <= cs0.len(),
            controllers@.len() == cs0.len(),
            cs0.len() == mappings@.len(),
            forall|k: int| 0 <= k < gamepads@.len() ==> (#[trigger] gamepads@[k]).wf(),
            forall|j: int|
                0 <= j < i ==> controllers@[j] == spec_sample_gamepad(
                    cs0[j],
                    mappings@[j],
                    gamepads@,
                    *settings,
                ).0,
            forall|j: int| i <= j < cs0.len() ==> controllers@[j] == cs0[j],
            events@ == es0 + spec_gamepad_events(cs0, mappings@, gamepads@, *settings, i as int),
        decreases cs0.len() - i,
    {
        let mut c = controllers[i];
        sample_gamepad(&mut c, &mappings[i], gamepads, settings, events);
        controllers.set(i, c);
        proof {
            assert(events@ =~= es0 + spec_gamepad_events(
                cs0,
                mappings@,
                gamepads@,
                *settings,
                i + 1,
            ));
        }
        i = i + 1;
    }
}

/// A mapping after one sync step: its primary device is exactly what the
/// assignment table holds for its player, or nothing. Always overwrites,
/// never merges.
pub open spec fn spec_synced_mapping(m: PlayerInputMapping, t: Map<u32, InputDevice>) -> PlayerInputMapping {
    PlayerInputMapping {
        primary_device: if t.dom().contains(m.player_id) {
            Some(t[m.player_id])
        } else {
            None
        },
        ..m
    }
}

/// The sync step is idempotent: with no table change, syncing a mapping twice
/// gives the same record as syncing it once.
pub proof fn lemma_sync_idempotent(m: PlayerInputMapping, t: Map<u32, InputDevice>)
    ensures
        spec_synced_mapping(spec_synced_mapping(m, t), t) == spec_synced_mapping(m, t),
{
}

/// Push the assignment table's state into every player mapping (one way:
/// table to mapping).
pub fn update_player_mappings(
    assignment: &InputDeviceAssignment,
    mappings: &mut Vec<PlayerInputMapping>,
)
    requires
        assignment.wf(),
    ensures
        final(mappings)@.len() == old(mappings)@.len(),
        forall|i: int|
            0 <= i < old(mappings)@.len() ==> final(mappings)@[i] == spec_synced_mapping(
                old(mappings)@[i],
                assignment@,
            ),
{
    let ghost ms0 = mappings@;
    let mut i: usize = 0;
    while i < mappings.len()
        invariant
            i <= ms0.len(),
            mappings@.len() == ms0.len(),
            assignment.wf(),
            forall|j: int|
                0 <= j < i ==> mappings@[j] == spec_synced_mapping(ms0[j], assignment@),
            forall|j: int| i <= j < ms0.len() ==> mappings@[j] == ms0[j],
        decreases ms0.len() - i,
    {
        let mut m = mappings[i];
        m.primary_device = assignment.get_device_for_player(m.player_id);
        mappings.set(i, m);
        i = i + 1;
    }
}

/// Reset every controller's momentary action flags, unconditionally, at the
/// end of the tick, after all of the tick's consumers have observed them.
pub fn clear_input_states(controllers: &mut Vec<InputController>)
    ensures
        final(controllers)@.len() == old(controllers)@.len(),
        forall|i: int|
            0 <= i < old(controllers)@.len() ==> final(controllers)@[i] == (InputController {
                primary_action: false,
                secondary_action: false,
                ..old(controllers)@[i]
            }),
{
    let ghost cs0 = controllers@;
    let mut i: usize = 0;
    while i < controllers.len()
        invariant
            i <= cs0.len(),
            controllers@.len() == cs0.len(),
            forall|j: int|
                0 <= j < i ==> controllers@[j] == (InputController {
                    primary_action: false,
                    secondary_action: false,
                    ..cs0[j]
                }),
            forall|j: int| i <= j < cs0.len() ==> controllers@[j] == cs0[j],
        decreases cs0.len() - i,
    {
        let mut c = controllers[i];
        c.primary_action = false;
        c.secondary_action = false;
        controllers.set(i, c);
        i = i + 1;
    }
}

/// Copy a vector of host handles.
fn copy_ids(v: &Vec<u64>) -> (r: Vec<u64>)
    ensures
        r@ == v@,
{
    let mut r: Vec<u64> = Vec::new();
    let mut i: usize = 0;
    while i < v.len()
        invariant
            i <= v@.len(),
            r@ == v@.subrange(0, i as int),
        decreases v@.len() - i,
    {
        r.push(v[i]);
        proof {
            assert(r@ =~= v@.subrange(0, i + 1));
        }
        i = i + 1;
    }
    proof {
        assert(r@ =~= v@);
    }
    r
}

/// Refresh the catalog from the host: replace the connected-gamepad list and
/// the platform availability bits. Returns whether the gamepad count changed
/// (worth a log line, nothing more).
pub fn detect_gamepads(
    available_devices: &mut AvailableInputDevices,
    gamepads: &Vec<u64>,
    mouse: bool,
    touch: bool,
) -> (changed: bool)
    ensures
        final(available_devices).gamepads@ == gamepads@,
        final(available_devices).keyboard,
        final(available_devices).mouse == mouse,
        final(available_devices).touch == touch,
        changed == (old(available_devices).gamepads@.len() != gamepads@.len()),
{
    let old_count = available_devices.gamepads.len();
    available_devices.gamepads = copy_ids(gamepads);
    let new_count = available_devices.gamepads.len();
    available_devices.update_availability(mouse, touch);
    old_count != new_count
}

/// The first device of the catalog, in enumeration order, that no player
/// holds in `m`.
pub open spec fn spec_first_unheld(devices: Seq<InputDevice>, m: Map<u32, InputDevice>) -> Option<
    InputDevice,
>
    decreases devices.len(),
{
    if devices.len() == 0 {
        None
    } else if !spec_holds_device(m, devices[0]) {
        Some(devices[0])
    } else {
        spec_first_unheld(devices.drop_first(), m)
    }
}

/// When every device before index `k` is held and the device at `k` is not,
/// the first unheld device is the one at `k`.
proof fn lemma_first_unheld_at(devices: Seq<InputDevice>, m: Map<u32, InputDevice>, k: int)
    requires
        0 <= k < devices.len(),
        forall|j: int| 0 <= j < k ==> spec_holds_device(m, #[trigger] devices[j]),
        !spec_holds_device(m, devices[k]),
    ensures
        spec_first_unheld(devices, m) == Some(devices[k]),
    decreases k,
{
    if k == 0 {
    } else {
        let rest = devices.drop_first();
        assert forall|j: int| 0 <= j < k - 1 implies spec_holds_device(
            m,
            #[trigger] rest[j],
        ) by {
            assert(rest[j] == devices[j + 1]);
        }
        assert(rest[k - 1] == devices[k]);
        lemma_first_unheld_at(rest, m, k - 1);
    }
}

/// When every device of the catalog is held, there is no first unheld device.
proof fn lemma_first_unheld_none(devices: Seq<InputDevice>, m: Map<u32, InputDevice>)
    requires
        forall|j: int| 0 <= j < devices.len() ==> spec_holds_device(m, #[trigger] devices[j]),
    ensures
        spec_first_unheld(devices, m) is None,
    decreases devices.len(),
{
    if devices.len() > 0 {
        let rest = devices.drop_first();
        assert forall|j: int| 0 <= j < rest.len() implies spec_holds_device(
            m,
            #[trigger] rest[j],
        ) by {
            assert(rest[j] == devices[j + 1]);
        }
        lemma_first_unheld_none(rest, m);
    }
}

/// The table after the greedy fill from `next` up to `bound`: each unassigned
/// player in ascending order takes the first catalog device no one holds yet.
pub open spec fn spec_fill(
    m: Map<u32, InputDevice>,
    devices: Seq<InputDevice>,
    bound: int,
    next: int,
) -> Map<u32, InputDevice>
    decreases bound - next,
{
    if next >= bound {
        m
    } else {
        let m2 = if m.dom().contains(next as u32) {
            m
        } else {
            match spec_first_unheld(devices, m) {
                Some(d) => spec_assign(m, next as u32, d),
                None => m,
            }
        };
        spec_fill(m2, devices, bound, next + 1)
    }
}

/// The highest player id among the live controllers, or zero with none.
pub open spec fn spec_max_player_id(cs: Seq<InputController>) -> int
    decreases cs.len(),
{
    if cs.len() == 0 {
        0
    } else {
        let rest = spec_max_player_id(cs.drop_last());
        if cs.last().player_id >= rest {
            cs.last().player_id as int
        } else {
            rest
        }
    }
}

/// The table auto-assignment leaves behind: unchanged unless auto-assignment
/// is enabled and the table is completely empty (the policy fires only on a
/// cold table, never re-balancing existing assignments); then the greedy fill
/// over players `0 .. min(max live player id + 1, max_players)`.
pub open spec fn spec_auto_assign(
    m: Map<u32, InputDevice>,
    max_players: u32,
    devices: Seq<InputDevice>,
    cs: Seq<InputController>,
    s: InputSettings,
) -> Map<u32, InputDevice> {
    if !s.auto_assign_devices || m != Map::<u32, InputDevice>::empty() {
        m
    } else {
        let count = spec_max_player_id(cs) + 1;
        let bound = if count <= max_players {
            count
        } else {
            max_players as int
        };
        spec_fill(m, devices, bound, 0)
    }
}

/// Fill every player's assignment automatically: fires only when enabled and
/// the table is empty, and then assigns players `0..player_count` (bounded by
/// `max_players`) the first free device each, in the catalog's enumeration
/// order — a deterministic function of the table, catalog and controllers.
pub fn auto_assign_devices(
    assignment: &mut InputDeviceAssignment,
    available_devices: &AvailableInputDevices,
    settings: &InputSettings,
    controllers: &Vec<InputController>,
)
    requires
        old(assignment).wf(),
        available_devices.gamepads@.len() <= u32::MAX,
        forall|i: int| 0 <= i < controllers@.len() ==> (#[trigger] controllers@[i]).player_id < u32::MAX,
    ensures
        final(assignment).wf(),
        final(assignment).spec_max_players() == old(assignment).spec_max_players(),
        final(assignment)@ == spec_auto_assign(
            old(assignment)@,
            old(assignment).spec_max_players(),
            available_devices.spec_device_list(),
            controllers@,
            *settings,
        ),
{
    if !settings.auto_assign_devices || !assignment.is_empty() {
        return;
    }
    let max_id = max_player_id(controllers);
    let player_count = max_id + 1;
    let max_players = assignment.get_max_players();
    let bound = if player_count <= max_players {
        player_count
    } else {
        max_players
    };
    let available = available_devices.get_available_devices();
    let ghost m0 = assignment@;
    let ghost devs = available_devices.spec_device_list();
    let mut pid: u32 = 0;
    while pid < bound
        invariant
            0 <= pid <= bound,
            assignment.wf(),
            assignment.spec_max_players() == old(assignment).spec_max_players(),
            available@ == devs,
            spec_fill(m0, devs, bound as int, 0) == spec_fill(assignment@, devs, bound as int, pid as int),
        decreases bound - pid,
    {
        let ghost m_cur = assignment@;
        if assignment.get_device_for_player(pid).is_none() {
            let mut k: usize = 0;
            let mut found = false;
            while k < available.len() && !found
                invariant
                    0 <= k <= available@.len(),
                    assignment.wf(),
                    assignment.spec_max_players() == old(assignment).spec_max_players(),
                    available@ == devs,
                    !found ==> assignment@ == m_cur,
                    !found ==> forall|j: int|
                        0 <= j < k ==> spec_holds_device(m_cur, #[trigger] devs[j]),
                    found ==> (spec_first_unheld(devs, m_cur) matches Some(d) && assignment@
                        == spec_assign(m_cur, pid, d)),
                decreases available@.len() - k + (if found { 0int } else { 1int }),
            {
                if !assignment.is_device_assigned(&available[k]) {
                    proof {
                        lemma_first_unheld_at(devs, m_cur, k as int);
                    }
                    assignment.assign_device(pid, available[k]);
                    found = true;
                } else {
                    k = k + 1;
                }
            }
            proof {
                if !found {
                    lemma_first_unheld_none(devs, m_cur);
                }
                assert(spec_fill(m_cur, devs, bound as int, pid as int) == spec_fill(
                    assignment@,
                    devs,
                    bound as int,
                    pid as int + 1,
                ));
            }
        } else {
            proof {
                assert(spec_fill(m_cur, devs, bound as int, pid as int) == spec_fill(
                    assignment@,
                    devs,
                    bound as int,
                    pid as int + 1,
                ));
            }
        }
        pid = pid + 1;
    }
}

/// The highest player id among the live controllers, or zero with none.
fn max_player_id(controllers: &Vec<InputController>) -> (r: u32)
    requires
        forall|i: int| 0 <= i < controllers@.len() ==> (#[trigger] controllers@[i]).player_id < u32::MAX,
    ensures
        r == spec_max_player_id(controllers@),
        r < u32::MAX,
{
    let mut r: u32 = 0;
    let mut i: usize = 0;
    while i < controllers.len()
        invariant
            i <= controllers@.len(),
            forall|j: int|
                0 <= j < controllers@.len() ==> (#[trigger] controllers@[j]).player_id < u32::MAX,
            r == spec_max_player_id(controllers@.subrange(0, i as int)),
            r < u32::MAX,
        decreases controllers@.len() - i,
    {
        proof {
            assert(controllers@.subrange(0, i + 1).drop_last() =~= controllers@.subrange(
                0,
                i as int,
            ));
            assert(controllers@.subrange(0, i + 1).last() == controllers@[i as int]);
        }
        if controllers[i].player_id > r {
            r = controllers[i].player_id;
        }
        i = i + 1;
    }
    proof {
        assert(controllers@.subrange(0, controllers@.len() as int) =~= controllers@);
    }
    r
}

/// The table and emitted events after one configuration request.
///
/// A manual assignment request is rejected — table unchanged, no event — when
/// the device is not in the current catalog (`DeviceUnavailable`) or when a
/// different player holds it (`DeviceAlreadyHeld`); otherwise it follows the
/// same evict-then-assign rule as `assign_device`. An unassignment request
/// always goes through.
pub open spec fn spec_apply_config_event(
    t: Map<u32, InputDevice>,
    avail: AvailableInputDevices,
    e: InputConfigurationEvent,
) -> (Map<u32, InputDevice>, Seq<InputEvent>) {
    match e {
        InputConfigurationEvent::Open => (t, Seq::<InputEvent>::empty()),
        InputConfigurationEvent::Close => (t, Seq::<InputEvent>::empty()),
        InputConfigurationEvent::DeviceAssigned { player_id, device } => {
            if !device.spec_is_available(avail) {
                (t, Seq::<InputEvent>::empty())
            } else if spec_holds_device(t, device) && !(t.dom().contains(player_id)
                && t[player_id] == device) {
                (t, Seq::<InputEvent>::empty())
            } else {
                (
                    spec_assign(t, player_id, device),
                    seq![InputEvent::DeviceAssigned { player_id, device }],
                )
            }
        },
        InputConfigurationEvent::DeviceUnassigned { player_id } => (
            t.remove(player_id),
            seq![InputEvent::DeviceUnassigned { player_id }],
        ),
    }
}

/// The table after the first `n` configuration requests.
pub open spec fn spec_config_state_after(
    t0: Map<u32, InputDevice>,
    avail: AvailableInputDevices,
    es: Seq<InputConfigurationEvent>,
    n: int,
) -> Map<u32, InputDevice>
    decreases n,
{
    if n <= 0 {
        t0
    } else {
        spec_apply_config_event(
            spec_config_state_after(t0, avail, es, n - 1),
            avail,
            es[n - 1],
        ).0
    }
}

/// The events the first `n` configuration requests emit, in order.
pub open spec fn spec_config_events_after(
    t0: Map<u32, InputDevice>,
    avail: AvailableInputDevices,
    es: Seq<InputConfigurationEvent>,
    n: int,
) -> Seq<InputEvent>
    decreases n,
{
    if n <= 0 {
        Seq::<InputEvent>::empty()
    } else {
        spec_config_events_after(t0, avail, es, n - 1) + spec_apply_config_event(
            spec_config_state_after(t0, avail, es, n - 1),
            avail,
            es[n - 1],
        ).1
    }
}

/// Apply the configuration screen's requests in order: validated manual
/// assignments and unassignments, each acknowledged with an event.
pub fn handle_input_configuration_events(
    config_events: &Vec<InputConfigurationEvent>,
    assignment: &mut InputDeviceAssignment,
    available_devices: &AvailableInputDevices,
    events_out: &mut Vec<InputEvent>,
)
    requires
        old(assignment).wf(),
    ensures
        final(assignment).wf(),
        final(assignment).spec_max_players() == old(assignment).spec_max_players(),
        final(assignment)@ == spec_config_state_after(
            old(assignment)@,
            *available_devices,
            config_events@,
            config_events@.len() as int,
        ),
        final(events_out)@ == old(events_out)@ + spec_config_events_after(
            old(assignment)@,
            *available_devices,
            config_events@,
            config_events@.len() as int,
        ),
{
    let ghost t0 = assignment@;
    let ghost es0 = events_out@;
    proof {
        assert(events_out@ =~= es0 + spec_config_events_after(
            t0,
            *available_devices,
            config_events@,
            0,
        ));
    }
    let mut i: usize = 0;
    while i < config_events.len()
        invariant
            i <= config_events@.len(),
            assignment.wf(),
            assignment.spec_max_players() == old(assignment).spec_max_players(),
            assignment@ == spec_config_state_after(
                t0,
                *available_devices,
                config_events@,
                i as int,
            ),
            events_out@ == es0 + spec_config_events_after(
                t0,
                *available_devices,
                config_events@,
                i as int,
            ),
        decreases config_events@.len() - i,
    {
        let ghost t_cur = assignment@;
        match config_events[i] {
            InputConfigurationEvent::Open => {},
            InputConfigurationEvent::Close => {},
            InputConfigurationEvent::DeviceAssigned { player_id, device } => {
                if device.is_available(available_devices) {
                    let held_by_other = match assignment.get_player_for_device(&device) {
                        Some(p) => p != player_id,
                        None => false,
                    };
                    proof {
                        if held_by_other && t_cur.dom().contains(player_id) && t_cur[player_id]
                            == device {
                            crate::assignment::lemma_assignment_injective(assignment);
                        }
                    }
                    if !held_by_other {
                        assignment.assign_device(player_id, device);
                        events_out.push(InputEvent::DeviceAssigned { player_id, device });
                    }
                }
            },
            InputConfigurationEvent::DeviceUnassigned { player_id } => {
                assignment.unassign_player(player_id);
                events_out.push(InputEvent::DeviceUnassigned { player_id });
            },
        }
        proof {
            assert(events_out@ =~= es0 + spec_config_events_after(
                t0,
                *available_devices,
                config_events@,
                i as int + 1,
            ));
        }
        i = i + 1;
    }
}

/// A gamepad's combined movement reading, executably. The result never
/// exceeds unit magnitude, and a raw sum already within one unit is returned
/// unchanged, not renormalized.
pub fn gamepad_move_vec(g: &GamepadState, deadzone: u32) -> (r: Vec2Fixed)
    requires
        g.wf(),
    ensures
        r == spec_gamepad_move_vec(*g, deadzone),
        r.spec_mag2() <= UNIT * UNIT,
        spec_gamepad_raw_sum(*g, deadzone).spec_mag2() <= UNIT * UNIT ==> r
            == spec_gamepad_raw_sum(*g, deadzone),
{
    let up = g.buttons.pressed(BTN_DPAD_UP);
    let down = g.buttons.pressed(BTN_DPAD_DOWN);
    let left = g.buttons.pressed(BTN_DPAD_LEFT);
    let right = g.buttons.pressed(BTN_DPAD_RIGHT);
    let dx: i32 = (if right { UNIT } else { 0 }) - (if left { UNIT } else { 0 });
    let dy: i32 = (if up { UNIT } else { 0 }) - (if down { UNIT } else { 0 });
    let stick = Vec2Fixed { x: g.stick_x, y: g.stick_y };
    let sum = if stick.exceeds(deadzone) {
        Vec2Fixed { x: dx + g.stick_x, y: dy + g.stick_y }
    } else {
        Vec2Fixed { x: dx, y: dy }
    };
    proof {
        assert(sum.spec_mag2() <= 8_000_000) by (nonlinear_arith)
            requires -2000 <= sum.x <= 2000 && -2000 <= sum.y <= 2000;
    }
    sum.clamp_to_unit()
}

/// Deadzone boundary: with no D-pad pressed, a stick magnitude exactly at (or
/// below) the deadzone registers no movement at all, while anything strictly
/// above it registers the stick reading (clamped).
pub proof fn lemma_deadzone_boundary(g: GamepadState, deadzone: u32)
    requires
        g.wf(),
        !g.buttons.spec_pressed(BTN_DPAD_UP),
        !g.buttons.spec_pressed(BTN_DPAD_DOWN),
        !g.buttons.spec_pressed(BTN_DPAD_LEFT),
        !g.buttons.spec_pressed(BTN_DPAD_RIGHT),
    ensures
        g.spec_stick().spec_mag2() <= deadzone * deadzone ==> spec_gamepad_move_vec(g, deadzone)
            == Vec2Fixed::spec_zero(),
        g.spec_stick().spec_mag2() > deadzone * deadzone ==> spec_gamepad_move_vec(g, deadzone)
            == g.spec_stick().spec_clamp(),
{
    let dpad = spec_dpad_vec(false, false, false, false);
    assert(dpad == Vec2Fixed::spec_zero());
    if g.spec_stick().spec_mag2() <= deadzone * deadzone {
        assert(spec_gamepad_raw_sum(g, deadzone) == Vec2Fixed::spec_zero());
        let z = Vec2Fixed::spec_zero();
        assert(z.x * z.x + z.y * z.y == 0) by (nonlinear_arith)
            requires z.x == 0 && z.y == 0;
        assert(UNIT * UNIT >= 0) by (nonlinear_arith);
        assert(z.spec_clamp() == z);
    } else {
        assert(spec_gamepad_raw_sum(g, deadzone) == g.spec_stick());
    }
}

/// One whole tick, in the required phase order: refresh the catalog from the
/// host's connected-gamepad list and platform bits, run the automatic
/// assignment policy, sync the table into the per-player mappings, sample
/// keyboard and then gamepad input for every controller, and finally clear
/// the momentary action flags. Returns the tick's events; consumers read
/// those, not the flags.
///
/// `controllers[i]` and `mappings[i]` belong to the same player; a mapping's
/// gamepad slot indexes `gamepads`, which is ordered like `gamepad_ids`.
pub fn tick(
    available_devices: &mut AvailableInputDevices,
    assignment: &mut InputDeviceAssignment,
    settings: &InputSettings,
    controllers: &mut Vec<InputController>,
    mappings: &mut Vec<PlayerInputMapping>,
    gamepad_ids: &Vec<u64>,
    mouse: bool,
    touch: bool,
    keyboard: &ButtonStates,
    gamepads: &Vec<GamepadState>,
) -> (events: Vec<InputEvent>)
    requires
        old(assignment).wf(),
        old(controllers)@.len() == old(mappings)@.len(),
        gamepad_ids@.len() <= u32::MAX,
        forall|i: int|
            0 <= i < old(controllers)@.len() ==> (#[trigger] old(controllers)@[i]).player_id
                < u32::MAX,
        forall|i: int| 0 <= i < gamepads@.len() ==> (#[trigger] gamepads@[i]).wf(),
    ensures
        final(available_devices).gamepads@ == gamepad_ids@,
        final(available_devices).keyboard,
        final(available_devices).mouse == mouse,
        final(available_devices).touch == touch,
        final(assignment).wf(),
        final(assignment)@ == spec_auto_assign(
            old(assignment)@,
            old(assignment).spec_max_players(),
            final(available_devices).spec_device_list(),
            old(controllers)@,
            *settings,
        ),
        final(mappings)@.len() == old(mappings)@.len(),
        forall|i: int|
            0 <= i < old(mappings)@.len() ==> final(mappings)@[i] == spec_synced_mapping(
                old(mappings)@[i],
                final(assignment)@,
            ),
        final(controllers)@.len() == old(controllers)@.len(),
        forall|i: int|
            0 <= i < old(controllers)@.len() ==> final(controllers)@[i] == (InputController {
                primary_action: false,
                secondary_action: false,
                ..spec_sample_gamepad(
                    spec_sample_keyboard(
                        old(controllers)@[i],
                        final(mappings)@[i],
                        *keyboard,
                        *settings,
                    ).0,
                    final(mappings)@[i],
                    gamepads@,
                    *settings,
                ).0
            }),
        events@ == spec_keyboard_events(
            old(controllers)@,
            final(mappings)@,
            *keyboard,
            *settings,
            old(controllers)@.len() as int,
        ) + spec_gamepad_events(
            Seq::new(
                old(controllers)@.len(),
                |i: int| spec_sample_keyboard(
                    old(controllers)@[i],
                    final(mappings)@[i],
                    *keyboard,
                    *settings,
                ).0,
            ),
            final(mappings)@,
            gamepads@,
            *settings,
            old(controllers)@.len() as int,
        ),
{
    let mut events: Vec<InputEvent> = Vec::new();
    detect_gamepads(available_devices, gamepad_ids, mouse, touch);
    auto_assign_devices(assignment, available_devices, settings, controllers);
    update_player_mappings(assignment, mappings);
    let ghost cs0 = controllers@;
    handle_keyboard_input(controllers, mappings, keyboard, settings, &mut events);
    proof {
        assert(controllers@ =~= Seq::new(
            cs0.len(),
            |i: int| spec_sample_keyboard(cs0[i], mappings@[i], *keyboard, *settings).0,
        ));
        assert(events@ =~= Seq::<InputEvent>::empty() + spec_keyboard_events(
            cs0,
            mappings@,
            *keyboard,
            *settings,
            cs0.len() as int,
        ));
    }
    handle_gamepad_input(controllers, mappings, gamepads, settings, &mut events);
    clear_input_states(controllers);
    proof {
        assert(Seq::<InputEvent>::empty() + spec_keyboard_events(
            cs0,
            mappings@,
            *keyboard,
            *settings,
            cs0.len() as int,
        ) =~= spec_keyboard_events(cs0, mappings@, *keyboard, *settings, cs0.len() as int));
    }
    events
}

} // verus!
