//! Input events and the translation of raw VirtIO-input (evdev) events into
//! typed keyboard and pointer events.
use vstd::prelude::*;

verus! {

/// A key, identified by its evdev key code.
#[derive(Debug, Clone, Copy, PartialEq, Eq, Structural)]
pub struct KeyCode(pub u16);

/// Key transition.
#[derive(Debug, Clone, Copy, PartialEq, Eq, Structural)]
pub enum KeyState {
    Released,
    Pressed,
    Repeat,
}

/// Held modifier keys, as a bitmask of `SHIFT | CTRL | ALT | SUPER`.
#[derive(Debug, Clone, Copy, PartialEq, Eq, Structural)]
pub struct Modifiers(pub u8);

/// Shift modifier bit.
pub const MOD_SHIFT: u8 = 1;
/// Control modifier bit.
pub const MOD_CTRL: u8 = 2;
/// Alt modifier bit.
pub const MOD_ALT: u8 = 4;
/// Super (logo) modifier bit.
pub const MOD_SUPER: u8 = 8;

/// Pointer button.
#[derive(Debug, Clone, Copy, PartialEq, Eq, Structural)]
pub enum MouseButton {
    Left,
    Right,
    Middle,
}

/// Pointer button transition.
#[derive(Debug, Clone, Copy, PartialEq, Eq, Structural)]
pub enum ButtonState {
    Pressed,
    Released,
}

/// A typed input event.
#[allow(inconsistent_fields)]
#[derive(Debug, Clone, Copy, PartialEq, Eq, Structural)]
pub enum InputEvent {
    /// A key transition with the modifiers held at the time.
    Keyboard { key: KeyCode, state: KeyState, modifiers: Modifiers },
    /// Pointer position in display coordinates, with an optional button
    /// transition.
    Pointer { x: u32, y: u32, button: Option<MouseButton>, state: Option<ButtonState> },
}

impl InputEvent {
    /// A pointer event that carries no button transition.
    pub open spec fn is_motion(self) -> bool {
        self matches InputEvent::Pointer { button: None, state: None, .. }
    }
}

/// evdev event types and codes the subsystem reads.
pub const EV_SYN: u16 = 0;
pub const EV_KEY: u16 = 1;
pub const EV_ABS: u16 = 3;
pub const SYN_REPORT: u16 = 0;
pub const BTN_LEFT: u16 = 0x110;
pub const BTN_RIGHT: u16 = 0x111;
pub const BTN_MIDDLE: u16 = 0x112;
pub const ABS_X: u16 = 0;
pub const ABS_Y: u16 = 1;
pub const KEY_LEFTCTRL: u16 = 29;
pub const KEY_LEFTSHIFT: u16 = 42;
pub const KEY_RIGHTSHIFT: u16 = 54;
pub const KEY_LEFTALT: u16 = 56;
pub const KEY_RIGHTCTRL: u16 = 97;
pub const KEY_RIGHTALT: u16 = 100;
pub const KEY_LEFTMETA: u16 = 125;
pub const KEY_RIGHTMETA: u16 = 126;
/// Events the input queue holds.
pub const INPUT_QUEUE_CAPACITY: usize = 256;
/// Absolute-axis maximum of the QEMU virtio tablet.
pub const DEFAULT_ABS_MAX: u32 = 32767;

/// A raw VirtIO-input (evdev) event.
#[derive(Debug, Clone, Copy, PartialEq, Eq, Structural)]
pub struct VirtioInputEvent {
    pub event_type: u16,
    pub code: u16,
    pub value: u32,
}

/// The key state of an evdev key value: 0 released, 1 pressed, 2 repeat.
pub open spec fn key_state_of(value: u32) -> Option<KeyState> {
    if value == 0 {
        Some(KeyState::Released)
    } else if value == 1 {
        Some(KeyState::Pressed)
    } else if value == 2 {
        Some(KeyState::Repeat)
    } else {
        None
    }
}

impl KeyState {
    /// The key state of an evdev key value.
    pub fn from_value(value: u32) -> (s: Option<KeyState>)
        ensures
            s == key_state_of(value),
    {
        if value == 0 {
            Some(KeyState::Released)
        } else if value == 1 {
            Some(KeyState::Pressed)
        } else if value == 2 {
            Some(KeyState::Repeat)
        } else {
            None
        }
    }
}

/// The modifier bit an evdev key code controls.
pub open spec fn modifier_flag(code: u16) -> Option<u8> {
    if code == KEY_LEFTSHIFT || code == KEY_RIGHTSHIFT {
        Some(MOD_SHIFT)
    } else if code == KEY_LEFTCTRL || code == KEY_RIGHTCTRL {
        Some(MOD_CTRL)
    } else if code == KEY_LEFTALT || code == KEY_RIGHTALT {
        Some(MOD_ALT)
    } else if code == KEY_LEFTMETA || code == KEY_RIGHTMETA {
        Some(MOD_SUPER)
    } else {
        None
    }
}

/// The modifier mask after key `code` takes value `value`: a modifier key
/// sets its bit when pressed (non-zero) and clears it when released.
pub open spec fn modifiers_after(mods: u8, code: u16, value: u32) -> u8 {
    match modifier_flag(code) {
        Some(f) => if value != 0 { mods | f } else { mods & !f },
        None => mods,
    }
}

/// An absolute axis value `value` in `[0, max]` scaled to `[0, size)`
/// (values past `max` count as `max`).
pub open spec fn abs_scaled(value: u32, max: u32, size: u32) -> u32 {
    let v = if value < max { value as int } else { max as int };
    ((v * size) / (max + 1)) as u32
}

/// An absolute axis value scaled to display coordinates.
pub fn abs_to_display(value: u32, max: u32, size: u32) -> (r: u32)
    ensures
        r == abs_scaled(value, max, size),
        r < size || size == 0,
{
    let v: u64 = if value < max { value as u64 } else { max as u64 };
    assert(v * size <= 0xFFFF_FFFF * 0xFFFF_FFFF) by (nonlinear_arith)
        requires v <= 0xFFFF_FFFF, size <= 0xFFFF_FFFF;
    let r = (v * size as u64) / (max as u64 + 1);
    proof {
        assert(v * size / (max + 1) <= size) by (nonlinear_arith)
            requires v <= max;
        if size > 0 {
            assert(v * size / (max + 1) < size) by (nonlinear_arith)
                requires v <= max, size > 0;
        }
    }
    r as u32
}

/// Pointer state gathered between sync reports.
#[derive(Debug, Clone, Copy, PartialEq, Eq, Structural)]
pub struct PendingPointer {
    pub x: u32,
    pub y: u32,
    pub button: Option<MouseButton>,
    pub button_state: Option<ButtonState>,
    pub dirty: bool,
}

/// `q` with `e` appended, unless it is full (then `e` is dropped).
pub open spec fn enqueued(q: Seq<InputEvent>, e: InputEvent) -> Seq<InputEvent> {
    if q.len() < INPUT_QUEUE_CAPACITY { q.push(e) } else { q }
}

/// The input subsystem: queued events, held modifiers, the pointer state
/// being gathered, the poll flag, and the display and axis ranges.
pub struct InputSubsystem {
    pub queue: Vec<InputEvent>,
    pub modifiers: u8,
    pub pending: PendingPointer,
    pub poll_due: bool,
    pub display_width: u32,
    pub display_height: u32,
    pub abs_max_x: u32,
    pub abs_max_y: u32,
}

/// The event a raw event produces, by the rules of `process_raw_event`:
/// the new queue, modifier mask and pending pointer state.
pub open spec fn raw_step(s: &InputSubsystem, raw: VirtioInputEvent) -> (Seq<InputEvent>, u8, PendingPointer) {
    let q = s.queue@;
    let m = s.modifiers;
    let p = s.pending;
    if raw.event_type == EV_KEY {
        if raw.code < BTN_LEFT {
            let m2 = modifiers_after(m, raw.code, raw.value);
            match key_state_of(raw.value) {
                Some(st) => (
                    enqueued(q, InputEvent::Keyboard { key: KeyCode(raw.code), state: st, modifiers: Modifiers(m2) }),
                    m2,
                    p,
                ),
                None => (q, m2, p),
            }
        } else if raw.code == BTN_LEFT || raw.code == BTN_RIGHT || raw.code == BTN_MIDDLE {
            let b = if raw.code == BTN_LEFT {
                MouseButton::Left
            } else if raw.code == BTN_RIGHT {
                MouseButton::Right
            } else {
                MouseButton::Middle
            };
            let st = if raw.value != 0 { ButtonState::Pressed } else { ButtonState::Released };
            (q, m, PendingPointer { button: Some(b), button_state: Some(st), dirty: true, ..p })
        } else {
            (q, m, p)
        }
    } else if raw.event_type == EV_ABS {
        if raw.code == ABS_X {
            (q, m, PendingPointer { x: abs_scaled(raw.value, s.abs_max_x, s.display_width), dirty: true, ..p })
        } else if raw.code == ABS_Y {
            (q, m, PendingPointer { y: abs_scaled(raw.value, s.abs_max_y, s.display_height), dirty: true, ..p })
        } else {
            (q, m, p)
        }
    } else if raw.event_type == EV_SYN && raw.code == SYN_REPORT {
        if p.dirty {
            (
                enqueued(q, InputEvent::Pointer { x: p.x, y: p.y, button: p.button, state: p.button_state }),
                m,
                PendingPointer { button: None, button_state: None, dirty: false, ..p },
            )
        } else {
            (q, m, p)
        }
    } else {
        (q, m, p)
    }
}

impl InputSubsystem {
    /// An idle subsystem for a `width` x `height` display, with the tablet's
    /// default axis range.
    pub fn new(width: u32, height: u32) -> (s: InputSubsystem)
        ensures
            s.queue@.len() == 0,
            s.modifiers == 0,
            !s.pending.dirty && s.pending.x == 0 && s.pending.y == 0 && s.pending.button is None
                && s.pending.button_state is None,
            !s.poll_due,
            s.display_width == width,
            s.display_height == height,
            s.abs_max_x == DEFAULT_ABS_MAX,
            s.abs_max_y == DEFAULT_ABS_MAX,
    {
        InputSubsystem {
            queue: Vec::new(),
            modifiers: 0,
            pending: PendingPointer { x: 0, y: 0, button: None, button_state: None, dirty: false },
            poll_due: false,
            display_width: width,
            display_height: height,
            abs_max_x: DEFAULT_ABS_MAX,
            abs_max_y: DEFAULT_ABS_MAX,
        }
    }

    /// Mark a poll due (from the timer tick).
    pub fn set_poll_due(&mut self)
        ensures
            final(self).poll_due,
            final(self).queue@ == old(self).queue@,
            final(self).modifiers == old(self).modifiers,
            final(self).pending == old(self).pending,
    {
        self.poll_due = true;
    }

    /// Take the poll flag: whether a poll is due (the flag is cleared).
    pub fn take_poll_due(&mut self) -> (due: bool)
        ensures
            due == old(self).poll_due,
            !final(self).poll_due,
            final(self).queue@ == old(self).queue@,
            final(self).modifiers == old(self).modifiers,
            final(self).pending == old(self).pending,
    {
        let due = self.poll_due;
        self.poll_due = false;
        due
    }

    fn enqueue(&mut self, e: InputEvent)
        ensures
            final(self).queue@ == enqueued(old(self).queue@, e),
            final(self).modifiers == old(self).modifiers,
            final(self).pending == old(self).pending,
            final(self).display_width == old(self).display_width,
            final(self).display_height == old(self).display_height,
            final(self).abs_max_x == old(self).abs_max_x,
            final(self).abs_max_y == old(self).abs_max_y,
            final(self).poll_due == old(self).poll_due,
    {
        if self.queue.len() < INPUT_QUEUE_CAPACITY {
            self.queue.push(e);
        }
    }

    /// Take one raw event: keys update the modifier mask and queue a key
    /// event (with the mask after the update), buttons and axes update the
    /// pending pointer state, and a sync report queues the pending pointer
    /// event if anything changed. A full queue drops the new event.
    pub fn process_raw_event(&mut self, raw: VirtioInputEvent)
        ensures
            ({
                let (q, m, p) = raw_step(old(self), raw);
                &&& final(self).queue@ == q
                &&& final(self).modifiers == m
                &&& final(self).pending == p
            }),
            final(self).display_width == old(self).display_width,
            final(self).display_height == old(self).display_height,
            final(self).abs_max_x == old(self).abs_max_x,
            final(self).abs_max_y == old(self).abs_max_y,
            final(self).poll_due == old(self).poll_due,
    {
        if raw.event_type == EV_KEY {
            if raw.code < BTN_LEFT {
                self.process_key_event(raw.code, raw.value);
            } else {
                self.process_button_event(raw.code, raw.value);
            }
        } else if raw.event_type == EV_ABS {
            self.process_abs_event(raw.code, raw.value);
        } else if raw.event_type == EV_SYN && raw.code == SYN_REPORT {
            self.flush_pending_pointer();
        }
    }

    /// Key `code` took value `value`: a modifier key sets (pressed or
    /// repeated) or clears (released) its bit; other keys change nothing.
    pub fn update_modifiers(&mut self, code: u16, value: u32)
        ensures
            final(self).modifiers == modifiers_after(old(self).modifiers, code, value),
            final(self).queue@ == old(self).queue@,
            final(self).pending == old(self).pending,
            final(self).display_width == old(self).display_width,
            final(self).display_height == old(self).display_height,
            final(self).abs_max_x == old(self).abs_max_x,
            final(self).abs_max_y == old(self).abs_max_y,
            final(self).poll_due == old(self).poll_due,
    {
        let flag: u8 = if code == KEY_LEFTSHIFT || code == KEY_RIGHTSHIFT {
            MOD_SHIFT
        } else if code == KEY_LEFTCTRL || code == KEY_RIGHTCTRL {
            MOD_CTRL
        } else if code == KEY_LEFTALT || code == KEY_RIGHTALT {
            MOD_ALT
        } else if code == KEY_LEFTMETA || code == KEY_RIGHTMETA {
            MOD_SUPER
        } else {
            return;
        };
        if value != 0 {
            self.modifiers = self.modifiers | flag;
        } else {
            self.modifiers = self.modifiers & !flag;
        }
    }

    /// A keyboard key event: the modifiers are updated, then a key event
    /// carrying the updated mask is queued (values other than 0, 1, 2 are
    /// skipped).
    pub fn process_key_event(&mut self, code: u16, value: u32)
        ensures
            ({
                let m2 = modifiers_after(old(self).modifiers, code, value);
                &&& final(self).modifiers == m2
                &&& final(self).queue@ == match key_state_of(value) {
                    Some(st) => enqueued(old(self).queue@, (InputEvent::Keyboard { key: KeyCode(code), state: st, modifiers: Modifiers(m2) })),
                    None => old(self).queue@,
                }
            }),
            final(self).pending == old(self).pending,
            final(self).display_width == old(self).display_width,
            final(self).display_height == old(self).display_height,
            final(self).abs_max_x == old(self).abs_max_x,
            final(self).abs_max_y == old(self).abs_max_y,
            final(self).poll_due == old(self).poll_due,
    {
        self.update_modifiers(code, value);
        match KeyState::from_value(value) {
            Some(st) => {
                let e = InputEvent::Keyboard { key: KeyCode(code), state: st, modifiers: Modifiers(self.modifiers) };
                self.enqueue(e);
            },
            None => {},
        }
    }

    /// A pointer button event: left, right or middle becomes the pending
    /// button, pressed when `value` is non-zero; other codes are ignored.
    pub fn process_button_event(&mut self, code: u16, value: u32)
        ensures
            (code == BTN_LEFT || code == BTN_RIGHT || code == BTN_MIDDLE) ==> {
                let b = if code == BTN_LEFT {
                    MouseButton::Left
                } else if code == BTN_RIGHT {
                    MouseButton::Right
                } else {
                    MouseButton::Middle
                };
                let st = if value != 0 { ButtonState::Pressed } else { ButtonState::Released };
                final(self).pending == (PendingPointer { button: Some(b), button_state: Some(st), dirty: true, ..old(self).pending })
            },
            !(code == BTN_LEFT || code == BTN_RIGHT || code == BTN_MIDDLE) ==> final(self).pending == old(self).pending,
            final(self).queue@ == old(self).queue@,
            final(self).modifiers == old(self).modifiers,
            final(self).display_width == old(self).display_width,
            final(self).display_height == old(self).display_height,
            final(self).abs_max_x == old(self).abs_max_x,
            final(self).abs_max_y == old(self).abs_max_y,
            final(self).poll_due == old(self).poll_due,
    {
        let b = if code == BTN_LEFT {
            MouseButton::Left
        } else if code == BTN_RIGHT {
            MouseButton::Right
        } else if code == BTN_MIDDLE {
            MouseButton::Middle
        } else {
            return;
        };
        let st = if value != 0 { ButtonState::Pressed } else { ButtonState::Released };
        self.pending.button = Some(b);
        self.pending.button_state = Some(st);
        self.pending.dirty = true;
    }

    /// An absolute axis event: X and Y are scaled to the display and become
    /// the pending position; other axes are ignored.
    pub fn process_abs_event(&mut self, code: u16, value: u32)
        ensures
            code == ABS_X ==> final(self).pending == (PendingPointer {
                x: abs_scaled(value, old(self).abs_max_x, old(self).display_width),
                dirty: true,
                ..old(self).pending
            }),
            code == ABS_Y ==> final(self).pending == (PendingPointer {
                y: abs_scaled(value, old(self).abs_max_y, old(self).display_height),
                dirty: true,
                ..old(self).pending
            }),
            code != ABS_X && code != ABS_Y ==> final(self).pending == old(self).pending,
            final(self).queue@ == old(self).queue@,
            final(self).modifiers == old(self).modifiers,
            final(self).display_width == old(self).display_width,
            final(self).display_height == old(self).display_height,
            final(self).abs_max_x == old(self).abs_max_x,
            final(self).abs_max_y == old(self).abs_max_y,
            final(self).poll_due == old(self).poll_due,
    {
        if code == ABS_X {
            self.pending.x = abs_to_display(value, self.abs_max_x, self.display_width);
            self.pending.dirty = true;
        } else if code == ABS_Y {
            self.pending.y = abs_to_display(value, self.abs_max_y, self.display_height);
            self.pending.dirty = true;
        }
    }

    /// Queue the pending pointer event if anything changed since the last
    /// one; the button transition is consumed, the position kept.
    pub fn flush_pending_pointer(&mut self)
        ensures
            old(self).pending.dirty ==> {
                let p = old(self).pending;
                &&& final(self).queue@ == enqueued(old(self).queue@, InputEvent::Pointer { x: p.x, y: p.y, button: p.button, state: p.button_state })
                &&& final(self).pending == PendingPointer { button: None, button_state: None, dirty: false, ..p }
            },
            !old(self).pending.dirty ==> final(self).queue@ == old(self).queue@ && final(self).pending == old(self).pending,
            final(self).modifiers == old(self).modifiers,
            final(self).display_width == old(self).display_width,
            final(self).display_height == old(self).display_height,
            final(self).abs_max_x == old(self).abs_max_x,
            final(self).abs_max_y == old(self).abs_max_y,
            final(self).poll_due == old(self).poll_due,
    {
        if !self.pending.dirty {
            return;
        }
        let e = InputEvent::Pointer { x: self.pending.x, y: self.pending.y, button: self.pending.button, state: self.pending.button_state };
        self.pending.button = None;
        self.pending.button_state = None;
        self.pending.dirty = false;
        self.enqueue(e);
    }

    /// Take the oldest queued event.
    pub fn pop_event(&mut self) -> (e: Option<InputEvent>)
        ensures
            old(self).queue@.len() == 0 ==> e is None && final(self).queue@ == old(self).queue@,
            old(self).queue@.len() > 0 ==> e == Some(old(self).queue@[0]) && final(self).queue@ == old(self).queue@.drop_first(),
            final(self).modifiers == old(self).modifiers,
            final(self).pending == old(self).pending,
    {
        if self.queue.len() == 0 {
            return None;
        }
        let e = self.queue.remove(0);
        proof {
            assert(self.queue@ =~= old(self).queue@.drop_first());
        }
        Some(e)
    }
}

} // verus!
