//! Input records for `SendInput`.
//!
//! Keys go as scancodes and not as virtual keys: the system then applies the
//! host's own keyboard layout, and programs that read the keyboard at the lowest
//! level see what a physical keyboard would give.
//!
//! This module makes the records and judges the outcome; handing the records to
//! the system is left to the caller.

use crate::inject::{self, InputError, PressedState};
use crate::proto::input::{self, InputEvent, InputFrame, MouseButton, MAX_EVENTS_PER_FRAME};
use crate::text;
use vstd::prelude::*;

verus! {

/// The pointer moves.
pub const MOUSE_MOVE: u32 = 0x0001;

/// The left button goes down.
pub const MOUSE_LEFT_DOWN: u32 = 0x0002;

/// The left button goes up.
pub const MOUSE_LEFT_UP: u32 = 0x0004;

/// The right button goes down.
pub const MOUSE_RIGHT_DOWN: u32 = 0x0008;

/// The right button goes up.
pub const MOUSE_RIGHT_UP: u32 = 0x0010;

/// The middle button goes down.
pub const MOUSE_MIDDLE_DOWN: u32 = 0x0020;

/// The middle button goes up.
pub const MOUSE_MIDDLE_UP: u32 = 0x0040;

/// A side button goes down.
pub const MOUSE_X_DOWN: u32 = 0x0080;

/// A side button goes up.
pub const MOUSE_X_UP: u32 = 0x0100;

/// The wheel turns.
pub const MOUSE_WHEEL: u32 = 0x0800;

/// The wheel tilts.
pub const MOUSE_HWHEEL: u32 = 0x1000;

/// The coordinates span every screen and not the main one only.
pub const MOUSE_VIRTUAL_DESK: u32 = 0x4000;

/// The coordinates are absolute.
pub const MOUSE_ABSOLUTE: u32 = 0x8000;

/// The key has the `0xE0` prefix.
pub const KEY_EXTENDED: u32 = 0x0001;

/// The key goes up.
pub const KEY_UP: u32 = 0x0002;

/// The key is given by its scancode.
pub const KEY_SCANCODE: u32 = 0x0008;

/// First side button.
pub const X_BUTTON_1: i32 = 1;

/// Second side button.
pub const X_BUTTON_2: i32 = 2;

/// One record for the system.
#[derive(Debug, Clone, Copy, PartialEq, Eq, Structural)]
pub enum Injection {
    /// A mouse record.
    Mouse {
        /// Horizontal move or position.
        dx: i32,
        /// Vertical move or position.
        dy: i32,
        /// Side button or wheel amount, by its 32 bits.
        data: u32,
        /// What happens.
        flags: u32,
    },
    /// A keyboard record.
    Key {
        /// Virtual key: always zero, since the scancode counts.
        virtual_key: u16,
        /// Scancode.
        scancode: u16,
        /// What happens.
        flags: u32,
    },
}

/// The unsigned number with the same 32 bits as `x`.
pub open spec fn i32_bits(x: int) -> u32 {
    if x < 0 {
        (x + 0x1_0000_0000) as u32
    } else {
        x as u32
    }
}

/// A mouse record.
pub open spec fn mouse(flags: u32, dx: int, dy: int, data: int) -> Injection {
    Injection::Mouse { dx: dx as i32, dy: dy as i32, data: i32_bits(data), flags }
}

/// The flags of a keyboard record.
pub open spec fn key_record_flags(pressed: bool, extended: bool) -> u32 {
    (KEY_SCANCODE + (if pressed {
        0
    } else {
        KEY_UP as int
    }) + (if extended {
        KEY_EXTENDED as int
    } else {
        0
    })) as u32
}

/// A keyboard record.
pub open spec fn key_record(scancode: u16, pressed: bool, extended: bool) -> Injection {
    Injection::Key { virtual_key: 0, scancode, flags: key_record_flags(pressed, extended) }
}

/// The record of a button, by its code.
pub open spec fn button_record(code: u8, pressed: bool) -> Injection {
    let flags = if code == 0 {
        if pressed {
            MOUSE_LEFT_DOWN
        } else {
            MOUSE_LEFT_UP
        }
    } else if code == 1 {
        if pressed {
            MOUSE_RIGHT_DOWN
        } else {
            MOUSE_RIGHT_UP
        }
    } else if code == 2 {
        if pressed {
            MOUSE_MIDDLE_DOWN
        } else {
            MOUSE_MIDDLE_UP
        }
    } else {
        if pressed {
            MOUSE_X_DOWN
        } else {
            MOUSE_X_UP
        }
    };
    let data: int = if code == 3 {
        X_BUTTON_1 as int
    } else if code == 4 {
        X_BUTTON_2 as int
    } else {
        0
    };
    mouse(flags, 0, 0, data)
}

/// The records of one event, in order. A scroll on both axes makes two, and a
/// scroll on none makes none.
pub open spec fn records_of(e: InputEvent) -> Seq<Injection> {
    match e {
        InputEvent::MouseMoveRelative { dx, dy } => seq![
            mouse(MOUSE_MOVE, dx as int, dy as int, 0),
        ],
        InputEvent::MouseMoveAbsolute { x, y } => seq![
            mouse(
                (MOUSE_MOVE + MOUSE_ABSOLUTE + MOUSE_VIRTUAL_DESK) as u32,
                x as int,
                y as int,
                0,
            ),
        ],
        InputEvent::MouseButton { button, pressed } => seq![
            button_record(input::button_code(button), pressed),
        ],
        InputEvent::MouseScroll { dx, dy } => (if dy != 0 {
            seq![mouse(MOUSE_WHEEL, 0, 0, dy as int)]
        } else {
            Seq::empty()
        }) + (if dx != 0 {
            seq![mouse(MOUSE_HWHEEL, 0, 0, dx as int)]
        } else {
            Seq::empty()
        }),
        InputEvent::Key { scancode, pressed, extended } => seq![
            key_record(scancode, pressed, extended),
        ],
    }
}

/// The records of some events, in order.
pub open spec fn records_of_all(es: Seq<InputEvent>) -> Seq<Injection>
    decreases es.len(),
{
    if es.len() == 0 {
        Seq::empty()
    } else {
        records_of_all(es.drop_last()) + records_of(es.last())
    }
}

/// The records that release what is held: the keys, then the buttons.
pub open spec fn release_records(m: inject::PressedModel) -> Seq<Injection> {
    Seq::new(m.keys.len(), |i: int| key_record(m.keys[i].0, false, m.keys[i].1)) + Seq::new(
        m.buttons.len(),
        |i: int| button_record(m.buttons[i], false),
    )
}

/// The message of a refusal: how many of the records the system took.
pub open spec fn refusal_text(sent: u32, expected: nat) -> Seq<char> {
    text::decimal(sent as nat) + seq!['/'] + text::decimal(expected) + " événements acceptés"@
}

/// Makes the records of input events, and remembers what is held.
#[derive(Debug)]
pub struct SendInputSink {
    buffer: Vec<Injection>,
    pressed: PressedState,
}

impl SendInputSink {
    /// Whether what is held is well formed.
    pub closed spec fn wf(&self) -> bool {
        self.pressed.wf()
    }

    /// The records that wait to be sent.
    pub closed spec fn waiting(&self) -> Seq<Injection> {
        self.buffer@
    }

    /// What the remote client holds.
    pub closed spec fn held(&self) -> inject::PressedModel {
        self.pressed@
    }

    /// A sink with room for a full frame, whose events make two records at most.
    pub fn new() -> (s: SendInputSink)
        ensures
            s.wf(),
            s.waiting() == Seq::<Injection>::empty(),
            s.held() == inject::nothing_held(),
    {
        SendInputSink {
            buffer: Vec::with_capacity(MAX_EVENTS_PER_FRAME * 2),
            pressed: PressedState::new(),
        }
    }

    /// What the remote client holds.
    pub fn pressed(&self) -> (p: &PressedState)
        requires
            self.wf(),
        ensures
            p.wf(),
            p@ == self.held(),
    {
        &self.pressed
    }

    /// The records that wait to be sent.
    pub fn buffer(&self) -> (b: &Vec<Injection>)
        ensures
            b@ == self.waiting(),
    {
        &self.buffer
    }

    /// Takes an event into account without making its records.
    pub fn observe(&mut self, event: &InputEvent)
        requires
            old(self).wf(),
        ensures
            final(self).wf(),
            final(self).waiting() == old(self).waiting(),
            final(self).held() == inject::held_after(old(self).held(), *event),
    {
        self.pressed.observe(event);
    }

    fn push_mouse(&mut self, flags: u32, dx: i32, dy: i32, data: i32)
        ensures
            final(self).pressed == old(self).pressed,
            final(self).buffer@ == old(self).buffer@.push(
                mouse(flags, dx as int, dy as int, data as int),
            ),
    {
        let bits: u32 = if data < 0 {
            (data as i64 + 0x1_0000_0000) as u32
        } else {
            data as u32
        };
        self.buffer.push(Injection::Mouse { dx, dy, data: bits, flags });
    }

    /// Makes the record of a key.
    pub fn push_key(&mut self, scancode: u16, pressed: bool, extended: bool)
        requires
            old(self).wf(),
        ensures
            final(self).wf(),
            final(self).held() == old(self).held(),
            final(self).waiting() == old(self).waiting().push(
                key_record(scancode, pressed, extended),
            ),
    {
        let mut flags: u32 = KEY_SCANCODE;
        if !pressed {
            flags = flags | KEY_UP;
        }
        if extended {
            flags = flags | KEY_EXTENDED;
        }
        assert(8u32 | 2 == 10 && 8u32 | 1 == 9 && 10u32 | 1 == 11) by (bit_vector);
        self.buffer.push(Injection::Key { virtual_key: 0, scancode, flags });
    }

    /// Makes the records of an event.
    pub fn push_event(&mut self, event: &InputEvent)
        requires
            old(self).wf(),
        ensures
            final(self).wf(),
            final(self).held() == old(self).held(),
            final(self).waiting() == old(self).waiting() + records_of(*event),
    {
        match *event {
            InputEvent::MouseMoveRelative { dx, dy } => {
                self.push_mouse(MOUSE_MOVE, dx as i32, dy as i32, 0);
            },
            InputEvent::MouseMoveAbsolute { x, y } => {
                assert(1u32 | 0x8000 | 0x4000 == 0xC001) by (bit_vector);
                self.push_mouse(
                    MOUSE_MOVE | MOUSE_ABSOLUTE | MOUSE_VIRTUAL_DESK,
                    x as i32,
                    y as i32,
                    0,
                );
            },
            InputEvent::MouseButton { button, pressed } => {
                let (flags, data): (u32, i32) = match (button, pressed) {
                    (MouseButton::Left, true) => (MOUSE_LEFT_DOWN, 0),
                    (MouseButton::Left, false) => (MOUSE_LEFT_UP, 0),
                    (MouseButton::Right, true) => (MOUSE_RIGHT_DOWN, 0),
                    (MouseButton::Right, false) => (MOUSE_RIGHT_UP, 0),
                    (MouseButton::Middle, true) => (MOUSE_MIDDLE_DOWN, 0),
                    (MouseButton::Middle, false) => (MOUSE_MIDDLE_UP, 0),
                    (MouseButton::X1, true) => (MOUSE_X_DOWN, X_BUTTON_1),
                    (MouseButton::X1, false) => (MOUSE_X_UP, X_BUTTON_1),
                    (MouseButton::X2, true) => (MOUSE_X_DOWN, X_BUTTON_2),
                    (MouseButton::X2, false) => (MOUSE_X_UP, X_BUTTON_2),
                };
                self.push_mouse(flags, 0, 0, data);
            },
            InputEvent::MouseScroll { dx, dy } => {
                if dy != 0 {
                    self.push_mouse(MOUSE_WHEEL, 0, 0, dy as i32);
                }
                if dx != 0 {
                    self.push_mouse(MOUSE_HWHEEL, 0, 0, dx as i32);
                }
            },
            InputEvent::Key { scancode, pressed, extended } => {
                self.push_key(scancode, pressed, extended);
            },
        }
        assert(self.buffer@ =~= old(self).buffer@ + records_of(*event));
    }

    /// Makes the records of a frame, and takes its events into account. The
    /// caller sends the waiting records in one block, then reports with
    /// [`SendInputSink::flushed`].
    pub fn apply(&mut self, frame: &InputFrame)
        requires
            old(self).wf(),
        ensures
            final(self).wf(),
            final(self).waiting() == records_of_all(frame@.events),
            final(self).held() == inject::held_after_all(old(self).held(), frame@.events),
    {
        self.buffer.clear();
        let ghost es = frame.events@;
        let mut i: usize = 0;
        assert(es.take(0) =~= Seq::<InputEvent>::empty());
        while i < frame.events.len()
            invariant
                i <= frame.events@.len(),
                es == frame.events@,
                self.wf(),
                self.waiting() == records_of_all(es.take(i as int)),
                self.held() == inject::held_after_all(old(self).held(), es.take(i as int)),
            decreases frame.events@.len() - i,
        {
            let event = frame.events[i];
            self.observe(&event);
            self.push_event(&event);
            assert(es.take(i + 1).drop_last() =~= es.take(i as int));
            i = i + 1;
        }
        assert(es.take(i as int) =~= es);
    }

    /// Makes the records that release everything that is held, which is then
    /// forgotten. The flag says that there is something to send.
    pub fn release_all(&mut self) -> (any: bool)
        requires
            old(self).wf(),
        ensures
            final(self).wf(),
            any == (old(self).held() != inject::nothing_held()),
            final(self).held() == inject::nothing_held(),
            final(self).waiting() == if any {
                release_records(old(self).held())
            } else {
                old(self).waiting()
            },
    {
        if self.pressed.is_empty() {
            return false;
        }
        self.buffer.clear();
        let ghost m = self.pressed@;
        let ghost all = release_records(m);
        let n: usize = self.pressed.keys().len();
        let k: usize = self.pressed.buttons().len();
        let mut i: usize = 0;
        assert(self.buffer@ =~= all.take(0));
        while i < n
            invariant
                i <= n,
                n == m.keys.len(),
                all == release_records(m),
                m == self.pressed@,
                self.wf(),
                self.buffer@ == all.take(i as int),
            decreases n - i,
        {
            let (scancode, extended) = self.pressed.keys()[i];
            self.push_key(scancode, false, extended);
            i = i + 1;
            assert(self.buffer@ =~= all.take(i as int));
        }
        let mut j: usize = 0;
        while j < k
            invariant
                j <= k,
                n == m.keys.len(),
                k == m.buttons.len(),
                all == release_records(m),
                m == self.pressed@,
                self.wf(),
                self.buffer@ == all.take(n + j),
            decreases k - j,
        {
            let code: u8 = self.pressed.buttons()[j];
            let flags: u32 = match code {
                0 => MOUSE_LEFT_UP,
                1 => MOUSE_RIGHT_UP,
                2 => MOUSE_MIDDLE_UP,
                _ => MOUSE_X_UP,
            };
            let data: i32 = match code {
                3 => X_BUTTON_1,
                4 => X_BUTTON_2,
                _ => 0,
            };
            self.push_mouse(flags, 0, 0, data);
            j = j + 1;
            assert(self.buffer@ =~= all.take(n + j));
        }
        assert(all.take(n + k) =~= all);
        self.pressed.clear();
        true
    }

    /// Judges a sending: the waiting records are gone, and the system took all of
    /// them or refused. With nothing waiting there is nothing to refuse.
    pub fn flushed(&mut self, sent: u32) -> (r: Result<(), InputError>)
        requires
            old(self).wf(),
        ensures
            final(self).wf(),
            final(self).held() == old(self).held(),
            final(self).waiting() == Seq::<Injection>::empty(),
            if old(self).waiting().len() == 0 || sent == old(self).waiting().len() {
                r is Ok
            } else {
                r matches Err(InputError::Refused(t)) && t@ == refusal_text(
                    sent,
                    old(self).waiting().len(),
                )
            },
    {
        let expected: usize = self.buffer.len();
        self.buffer.clear();
        assert(self.buffer@ =~= Seq::<Injection>::empty());
        if expected == 0 {
            return Ok(());
        }
        if sent as usize != expected {
            let mut message = String::new();
            text::push_decimal(&mut message, sent as u64);
            message.push('/');
            text::push_decimal(&mut message, expected as u64);
            text::push_text(&mut message, " événements acceptés");
            assert(message@ =~= refusal_text(sent, expected as nat));
            return Err(InputError::Refused(message));
        }
        Ok(())
    }
}

impl Default for SendInputSink {
    fn default() -> (s: SendInputSink)
        ensures
            s.wf(),
            s.waiting() == Seq::<Injection>::empty(),
            s.held() == inject::nothing_held(),
    {
        SendInputSink::new()
    }
}

/// An event makes two records at most, so that a full frame fits in the room made
/// for it.
pub proof fn law_a_frame_fits_the_buffer(es: Seq<InputEvent>)
    ensures
        records_of_all(es).len() <= 2 * es.len(),
    decreases es.len(),
{
    if es.len() > 0 {
        law_a_frame_fits_the_buffer(es.drop_last());
    }
}

/// Releasing makes one record per held input, each of which lets go of it: a key-up
/// for every key, a button-up for every button.
pub proof fn law_release_lets_go_of_everything(m: inject::PressedModel)
    ensures
        release_records(m).len() == m.keys.len() + m.buttons.len(),
        forall|i: int|
            0 <= i < m.keys.len() ==> #[trigger] release_records(m)[i] == records_of(
                InputEvent::Key {
                    scancode: m.keys[i].0,
                    pressed: false,
                    extended: m.keys[i].1,
                },
            )[0],
        forall|i: int, b: MouseButton|
            0 <= i < m.buttons.len() && m.buttons[i] == #[trigger] input::button_code(b)
                ==> #[trigger] release_records(m)[m.keys.len() + i] == records_of(
                InputEvent::MouseButton { button: b, pressed: false },
            )[0],
{
}

/// Each button has its own pair of records. A press is flag 0x0002 for the left button,
/// 0x0008 for the right one, 0x0020 for the middle one, and 0x0080 for a side button,
/// whose number, one or two, goes along. A release is twice the flag of the press, with
/// the same number: it undoes the press of that button and of no other.
pub proof fn law_each_button_has_its_own_records(button: MouseButton, pressed: bool)
    ensures
        records_of(InputEvent::MouseButton { button, pressed }) == seq![
            Injection::Mouse {
                dx: 0,
                dy: 0,
                data: if button is X1 {
                    1
                } else if button is X2 {
                    2
                } else {
                    0
                },
                flags: ((if button is Left {
                    0x0002int
                } else if button is Right {
                    0x0008
                } else if button is Middle {
                    0x0020
                } else {
                    0x0080
                }) * (if pressed {
                    1int
                } else {
                    2
                })) as u32,
            },
        ],
{
}

/// No two buttons share a record, and no record both presses and releases: from a record
/// alone the button and the direction can be told.
pub proof fn law_records_tell_buttons_apart(
    a: MouseButton,
    pressed: bool,
    b: MouseButton,
    pressed_b: bool,
)
    requires
        records_of(InputEvent::MouseButton { button: a, pressed }) == records_of(
            InputEvent::MouseButton { button: b, pressed: pressed_b },
        ),
    ensures
        a == b,
        pressed == pressed_b,
{
    let r = records_of(InputEvent::MouseButton { button: a, pressed });
    let s = records_of(InputEvent::MouseButton { button: b, pressed: pressed_b });
    assert(r[0] == s[0]);
}

/// Moving the pointer: a relative move is handed over as it is, with flag 0x0001; a
/// position likewise, with the flags of a move, of absolute coordinates and of the whole
/// desktop, 0xC001. Horizontal stays horizontal, and neither carries a button or a wheel.
pub proof fn law_the_pointer_goes_where_it_is_sent(dx: i16, dy: i16, x: u16, y: u16)
    ensures
        records_of(InputEvent::MouseMoveRelative { dx, dy }) == seq![
            Injection::Mouse { dx: dx as i32, dy: dy as i32, data: 0, flags: 0x0001 },
        ],
        records_of(InputEvent::MouseMoveAbsolute { x, y }) == seq![
            Injection::Mouse { dx: x as i32, dy: y as i32, data: 0, flags: 0xC001 },
        ],
{
}

/// Scrolling: the vertical amount turns the wheel (0x0800), then the horizontal one tilts
/// it (0x1000); an axis that does not move makes no record. The amount is handed over by
/// its 32 bits, so that scrolling back is told from scrolling on.
pub proof fn law_the_wheel_follows_both_axes(dx: i16, dy: i16)
    ensures
        ({
            let r = records_of(InputEvent::MouseScroll { dx, dy });
            let turn = Injection::Mouse {
                dx: 0,
                dy: 0,
                data: (dy as int % 0x1_0000_0000) as u32,
                flags: 0x0800,
            };
            let tilt = Injection::Mouse {
                dx: 0,
                dy: 0,
                data: (dx as int % 0x1_0000_0000) as u32,
                flags: 0x1000,
            };
            &&& dx == 0 && dy == 0 ==> r.len() == 0
            &&& dx == 0 && dy != 0 ==> r == seq![turn]
            &&& dx != 0 && dy == 0 ==> r == seq![tilt]
            &&& dx != 0 && dy != 0 ==> r == seq![turn, tilt]
        }),
{
    let r = records_of(InputEvent::MouseScroll { dx, dy });
    if dx != 0 && dy != 0 {
        assert(r =~= seq![mouse(MOUSE_WHEEL, 0, 0, dy as int), mouse(MOUSE_HWHEEL, 0, 0, dx as int)]);
    } else if dx != 0 {
        assert(r =~= seq![mouse(MOUSE_HWHEEL, 0, 0, dx as int)]);
    } else if dy != 0 {
        assert(r =~= seq![mouse(MOUSE_WHEEL, 0, 0, dy as int)]);
    }
}

/// A key goes by its scancode (0x0008) and by no virtual key; a release adds 0x0002, and
/// an extended key 0x0001. So a press and its release differ by the release flag alone.
pub proof fn law_keys_go_by_their_scancode(scancode: u16, pressed: bool, extended: bool)
    ensures
        records_of(InputEvent::Key { scancode, pressed, extended }) == seq![
            Injection::Key {
                virtual_key: 0,
                scancode,
                flags: (0x0008 + (if pressed {
                    0int
                } else {
                    0x0002
                }) + (if extended {
                    0x0001int
                } else {
                    0
                })) as u32,
            },
        ],
{
}

/// The records of some events stand in the order of the events: those of the first part,
/// then those of the second, wherever the events are cut; and one event alone makes its
/// own records.
pub proof fn law_records_keep_the_order_of_events(es: Seq<InputEvent>, fs: Seq<InputEvent>)
    ensures
        records_of_all(es + fs) == records_of_all(es) + records_of_all(fs),
        forall|e: InputEvent| #[trigger] records_of_all(seq![e]) == records_of(e),
    decreases fs.len(),
{
    assert forall|e: InputEvent| #[trigger] records_of_all(seq![e]) == records_of(e) by {
        assert(seq![e].drop_last() =~= Seq::<InputEvent>::empty());
        assert(records_of_all(seq![e].drop_last()) =~= Seq::<Injection>::empty());
        assert(Seq::<Injection>::empty() + records_of(e) =~= records_of(e));
    }
    if fs.len() == 0 {
        assert(es + fs =~= es);
        assert(records_of_all(es) + records_of_all(fs) =~= records_of_all(es));
    } else {
        law_records_keep_the_order_of_events(es, fs.drop_last());
        assert((es + fs).drop_last() =~= es + fs.drop_last());
        assert(records_of_all(es + fs) =~= records_of_all(es) + records_of_all(fs));
    }
}

/// What is released is what is held, each once: a release of every key with its own
/// scancode and prefix, flags 0x000A or 0x000B, then of every button with its own flag.
pub proof fn law_every_held_input_is_released(m: inject::PressedModel, i: int)
    requires
        inject::pressed_wf(m),
    ensures
        release_records(m).len() == m.keys.len() + m.buttons.len(),
        0 <= i < m.keys.len() ==> release_records(m)[i] == (Injection::Key {
            virtual_key: 0,
            scancode: m.keys[i].0,
            flags: if m.keys[i].1 {
                0x000B
            } else {
                0x000A
            },
        }),
        0 <= i < m.buttons.len() ==> release_records(m)[m.keys.len() + i] == (Injection::Mouse {
            dx: 0,
            dy: 0,
            data: if m.buttons[i] == 3 {
                1
            } else if m.buttons[i] == 4 {
                2
            } else {
                0
            },
            flags: if m.buttons[i] == 0 {
                0x0004
            } else if m.buttons[i] == 1 {
                0x0010
            } else if m.buttons[i] == 2 {
                0x0040
            } else {
                0x0100
            },
        }),
{
}

/// Whatever a client pressed and did not let go, the release at the end lets go of it: a
/// button or a key whose last event was a press gets the record of its own release.
pub proof fn law_nothing_stays_down(
    es: Seq<InputEvent>,
    button: MouseButton,
    scancode: u16,
    extended: bool,
)
    ensures
        ({
            let r = release_records(inject::held_after_all(inject::nothing_held(), es));
            &&& inject::last_clicked(es, input::button_code(button)) ==> r.contains(
                records_of(InputEvent::MouseButton { button, pressed: false })[0],
            )
            &&& inject::last_pressed(es, (scancode, extended)) ==> r.contains(
                records_of(InputEvent::Key { scancode, pressed: false, extended })[0],
            )
        }),
{
    let m = inject::held_after_all(inject::nothing_held(), es);
    let r = release_records(m);
    let code = input::button_code(button);
    let key = (scancode, extended);
    inject::law_held_buttons_follow_the_last_event(es, code);
    inject::law_held_keys_follow_the_last_event(es, key);
    law_release_lets_go_of_everything(m);
    if m.buttons.contains(code) {
        let i = choose|i: int| 0 <= i < m.buttons.len() && m.buttons[i] == code;
        assert(r[m.keys.len() + i] == records_of(
            InputEvent::MouseButton { button, pressed: false },
        )[0]);
    }
    if m.keys.contains(key) {
        let i = choose|i: int| 0 <= i < m.keys.len() && m.keys[i] == key;
        assert(r[i] == records_of(InputEvent::Key { scancode, pressed: false, extended })[0]);
    }
}

/// A refusal shows how many of the records were taken, and then how many there were.
pub proof fn law_a_refusal_shows_how_many(sent: u32, expected: nat)
    ensures
        text::shows_both(
            refusal_text(sent, expected),
            text::decimal(sent as nat),
            text::decimal(expected),
        ),
{
    text::lemma_shows_both(
        Seq::empty(),
        text::decimal(sent as nat),
        seq!['/'],
        text::decimal(expected),
        " événements acceptés"@,
    );
    assert(Seq::empty() + text::decimal(sent as nat) =~= text::decimal(sent as nat));
}

} // verus!
