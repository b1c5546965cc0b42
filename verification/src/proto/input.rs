//! Binary codec of the `input-raw` channel.
//!
//! The channel is unordered and never retransmits: a frame may arrive late or
//! not at all. Each frame carries a sequence number, and the receiver drops
//! stale frames ([`SeqTracker`]) rather than replaying events out of order: a
//! release replayed after a press would leave a key held down.
//!
//! ```text
//! byte  0      version (= FRAME_VERSION)
//! bytes 1..5   sequence number, u32 little-endian
//! byte  5      number of events
//! bytes 6..    events, each led by its kind
//! ```

use crate::proto::bytes;
use crate::proto::ProtoError;
use vstd::prelude::*;

verus! {

/// Version of the frame format.
pub const FRAME_VERSION: u8 = 1;

/// Size of the frame header, in bytes.
pub const FRAME_HEADER_LEN: usize = 6;

/// Hard limit of events in a frame. It bounds the work that a hostile frame can
/// cause, and leaves ample room for coalescing at 120 Hz.
pub const MAX_EVENTS_PER_FRAME: usize = 64;

/// A relative move.
pub const KIND_MOUSE_MOVE_REL: u8 = 0x01;

/// An absolute position.
pub const KIND_MOUSE_MOVE_ABS: u8 = 0x02;

/// A mouse button.
pub const KIND_MOUSE_BUTTON: u8 = 0x03;

/// A scroll.
pub const KIND_MOUSE_SCROLL: u8 = 0x04;

/// A key.
pub const KIND_KEY: u8 = 0x05;

/// The key goes down.
pub const FLAG_PRESSED: u8 = 0b0000_0001;

/// The key has the `0xE0` prefix.
pub const FLAG_EXTENDED: u8 = 0b0000_0010;

/// The mouse buttons that can travel. Any other value is refused on decoding.
#[derive(Debug, Clone, Copy, PartialEq, Eq, Structural)]
pub enum MouseButton {
    /// Left button.
    Left,
    /// Right button.
    Right,
    /// Middle button.
    Middle,
    /// First side button.
    X1,
    /// Second side button.
    X2,
}

/// The byte that stands for a button.
pub open spec fn button_code(b: MouseButton) -> u8 {
    match b {
        MouseButton::Left => 0,
        MouseButton::Right => 1,
        MouseButton::Middle => 2,
        MouseButton::X1 => 3,
        MouseButton::X2 => 4,
    }
}

/// The button that a byte stands for.
pub open spec fn button_of(v: u8) -> Option<MouseButton> {
    if v == 0 {
        Some(MouseButton::Left)
    } else if v == 1 {
        Some(MouseButton::Right)
    } else if v == 2 {
        Some(MouseButton::Middle)
    } else if v == 3 {
        Some(MouseButton::X1)
    } else if v == 4 {
        Some(MouseButton::X2)
    } else {
        None
    }
}

impl MouseButton {
    /// The byte that stands for this button.
    pub fn code(self) -> (v: u8)
        ensures
            v == button_code(self),
    {
        match self {
            MouseButton::Left => 0,
            MouseButton::Right => 1,
            MouseButton::Middle => 2,
            MouseButton::X1 => 3,
            MouseButton::X2 => 4,
        }
    }

    fn from_u8(v: u8) -> (b: Option<MouseButton>)
        ensures
            b == button_of(v),
    {
        match v {
            0 => Some(MouseButton::Left),
            1 => Some(MouseButton::Right),
            2 => Some(MouseButton::Middle),
            3 => Some(MouseButton::X1),
            4 => Some(MouseButton::X2),
            _ => None,
        }
    }
}

/// One input event.
#[derive(Debug, Clone, Copy, PartialEq, Eq, Structural)]
pub enum InputEvent {
    /// Relative move, in logical pixels (trackpad mode).
    MouseMoveRelative {
        /// Horizontal move.
        dx: i16,
        /// Vertical move.
        dy: i16,
    },
    /// Absolute position, normalised on `0..=u16::MAX` whatever the host's
    /// resolution.
    MouseMoveAbsolute {
        /// Normalised abscissa.
        x: u16,
        /// Normalised ordinate.
        y: u16,
    },
    /// A mouse button goes down or up.
    MouseButton {
        /// The button.
        button: MouseButton,
        /// `true` on press, `false` on release.
        pressed: bool,
    },
    /// Scroll, in units of which 120 make a notch of the wheel.
    MouseScroll {
        /// Horizontal scroll.
        dx: i16,
        /// Vertical scroll.
        dy: i16,
    },
    /// A key goes down or up, as a PS/2 set 1 scancode.
    Key {
        /// The scancode.
        scancode: u16,
        /// `true` on press, `false` on release.
        pressed: bool,
        /// The `0xE0` prefix: arrows, navigation keys, Windows keys.
        extended: bool,
    },
}

/// The byte that holds the two flags of a key event.
pub open spec fn key_flags(pressed: bool, extended: bool) -> u8 {
    ((if pressed {
        1int
    } else {
        0
    }) + (if extended {
        2int
    } else {
        0
    })) as u8
}

/// What an event looks like on the wire.
pub open spec fn event_bytes(e: InputEvent) -> Seq<u8> {
    match e {
        InputEvent::MouseMoveRelative { dx, dy } => seq![1u8] + bytes::u16_le(bytes::i16_bits(dx))
            + bytes::u16_le(bytes::i16_bits(dy)),
        InputEvent::MouseMoveAbsolute { x, y } => seq![2u8] + bytes::u16_le(x) + bytes::u16_le(y),
        InputEvent::MouseButton { button, pressed } => seq![
            3u8,
            button_code(button),
            if pressed {
                1u8
            } else {
                0u8
            },
        ],
        InputEvent::MouseScroll { dx, dy } => seq![4u8] + bytes::u16_le(bytes::i16_bits(dx))
            + bytes::u16_le(bytes::i16_bits(dy)),
        InputEvent::Key { scancode, pressed, extended } => seq![5u8] + bytes::u16_le(scancode)
            + seq![key_flags(pressed, extended)],
    }
}

/// What a list of events looks like on the wire: one after the other.
pub open spec fn events_bytes(es: Seq<InputEvent>) -> Seq<u8>
    decreases es.len(),
{
    if es.len() == 0 {
        Seq::empty()
    } else {
        event_bytes(es[0]) + events_bytes(es.drop_first())
    }
}

/// What is refused for want of bytes.
pub open spec fn truncated<T>(need: nat, have: nat) -> Result<T, ProtoError> {
    Err(ProtoError::Truncated { need: need as usize, have: have as usize })
}

/// The event at the head of `b`, with its length.
pub open spec fn parse_event(b: Seq<u8>) -> Result<(InputEvent, nat), ProtoError> {
    if b.len() < 1 {
        truncated(1, b.len())
    } else if b[0] == 1 {
        if b.len() < 5 {
            truncated(5, b.len())
        } else {
            Ok(
                (
                    InputEvent::MouseMoveRelative {
                        dx: bytes::i16_of_bits(bytes::u16_of(b[1], b[2])),
                        dy: bytes::i16_of_bits(bytes::u16_of(b[3], b[4])),
                    },
                    5,
                ),
            )
        }
    } else if b[0] == 2 {
        if b.len() < 5 {
            truncated(5, b.len())
        } else {
            Ok(
                (
                    InputEvent::MouseMoveAbsolute {
                        x: bytes::u16_of(b[1], b[2]),
                        y: bytes::u16_of(b[3], b[4]),
                    },
                    5,
                ),
            )
        }
    } else if b[0] == 3 {
        if b.len() < 3 {
            truncated(3, b.len())
        } else {
            match button_of(b[1]) {
                None => Err(ProtoError::UnknownEvent(3)),
                Some(button) => Ok((InputEvent::MouseButton { button, pressed: b[2] != 0 }, 3)),
            }
        }
    } else if b[0] == 4 {
        if b.len() < 5 {
            truncated(5, b.len())
        } else {
            Ok(
                (
                    InputEvent::MouseScroll {
                        dx: bytes::i16_of_bits(bytes::u16_of(b[1], b[2])),
                        dy: bytes::i16_of_bits(bytes::u16_of(b[3], b[4])),
                    },
                    5,
                ),
            )
        }
    } else if b[0] == 5 {
        if b.len() < 4 {
            truncated(4, b.len())
        } else {
            Ok(
                (
                    InputEvent::Key {
                        scancode: bytes::u16_of(b[1], b[2]),
                        pressed: b[3] % 2 == 1,
                        extended: b[3] / 2 % 2 == 1,
                    },
                    4,
                ),
            )
        }
    } else {
        Err(ProtoError::UnknownEvent(b[0]))
    }
}

/// The `n` events at the head of `b`, with the bytes that follow them; or the
/// first error met on the way.
pub open spec fn parse_events(b: Seq<u8>, n: nat) -> Result<
    (Seq<InputEvent>, Seq<u8>),
    ProtoError,
>
    decreases n,
{
    if n == 0 {
        Ok((Seq::empty(), b))
    } else {
        match parse_event(b) {
            Err(e) => Err(e),
            Ok((event, used)) => match parse_events(b.skip(used as int), (n - 1) as nat) {
                Err(e) => Err(e),
                Ok((events, rest)) => Ok((seq![event] + events, rest)),
            },
        }
    }
}

/// A frame as a mathematical value.
#[verifier::ext_equal]
pub struct FrameModel {
    /// Sequence number.
    pub seq: u32,
    /// Events, in the order in which they were sent.
    pub events: Seq<InputEvent>,
}

/// What a frame looks like on the wire. Events beyond the limit are not sent.
pub open spec fn frame_bytes(f: FrameModel) -> Seq<u8> {
    let sent = sent_events(f.events);
    seq![FRAME_VERSION] + bytes::u32_le(f.seq) + seq![sent.len() as u8] + events_bytes(sent)
}

/// The events of a frame that are sent: all of them, or the first 64.
pub open spec fn sent_events(es: Seq<InputEvent>) -> Seq<InputEvent> {
    if es.len() <= MAX_EVENTS_PER_FRAME {
        es
    } else {
        es.take(MAX_EVENTS_PER_FRAME as int)
    }
}

/// The frame that a received buffer holds, or why it is refused.
pub open spec fn parse_frame(b: Seq<u8>) -> Result<FrameModel, ProtoError> {
    if b.len() < FRAME_HEADER_LEN {
        truncated(FRAME_HEADER_LEN as nat, b.len())
    } else if b[0] != FRAME_VERSION {
        Err(ProtoError::BadVersion(b[0]))
    } else if b[5] > MAX_EVENTS_PER_FRAME {
        Err(ProtoError::TooManyEvents(b[5] as usize))
    } else {
        match parse_events(b.skip(FRAME_HEADER_LEN as int), b[5] as nat) {
            Err(e) => Err(e),
            Ok((events, rest)) => if rest.len() != 0 {
                Err(ProtoError::TrailingBytes(rest.len() as usize))
            } else {
                Ok(FrameModel { seq: bytes::u32_of(b[1], b[2], b[3], b[4]), events })
            },
        }
    }
}

impl InputEvent {
    /// The length of this event on the wire.
    pub fn encoded_len(&self) -> (n: usize)
        ensures
            n == event_bytes(*self).len(),
            n <= 5,
    {
        1 + match self {
            InputEvent::MouseMoveRelative { .. }
            | InputEvent::MouseMoveAbsolute { .. }
            | InputEvent::MouseScroll { .. } => 4,
            InputEvent::MouseButton { .. } => 2,
            InputEvent::Key { .. } => 3,
        }
    }

    /// Appends this event as it looks on the wire.
    pub fn encode_into(&self, out: &mut Vec<u8>)
        ensures
            final(out)@ == old(out)@ + event_bytes(*self),
    {
        match *self {
            InputEvent::MouseMoveRelative { dx, dy } => {
                out.push(KIND_MOUSE_MOVE_REL);
                bytes::push_i16_le(out, dx);
                bytes::push_i16_le(out, dy);
            },
            InputEvent::MouseMoveAbsolute { x, y } => {
                out.push(KIND_MOUSE_MOVE_ABS);
                bytes::push_u16_le(out, x);
                bytes::push_u16_le(out, y);
            },
            InputEvent::MouseButton { button, pressed } => {
                out.push(KIND_MOUSE_BUTTON);
                out.push(button.code());
                out.push(
                    if pressed {
                        1
                    } else {
                        0
                    },
                );
            },
            InputEvent::MouseScroll { dx, dy } => {
                out.push(KIND_MOUSE_SCROLL);
                bytes::push_i16_le(out, dx);
                bytes::push_i16_le(out, dy);
            },
            InputEvent::Key { scancode, pressed, extended } => {
                out.push(KIND_KEY);
                bytes::push_u16_le(out, scancode);
                let mut flags: u8 = 0;
                if pressed {
                    flags = flags | FLAG_PRESSED;
                }
                if extended {
                    flags = flags | FLAG_EXTENDED;
                }
                assert(0u8 | FLAG_PRESSED == 1 && 0u8 | FLAG_EXTENDED == 2 && 1u8 | FLAG_EXTENDED
                    == 3) by (bit_vector);
                out.push(flags);
            },
        }
        assert(out@ =~= old(out)@ + event_bytes(*self));
    }
}

/// Events that share a sequence number.
///
/// The client gathers its events over a display tick before it sends them.
#[derive(Debug, Clone, PartialEq, Eq)]
pub struct InputFrame {
    /// Sequence number, increasing and cyclic.
    pub seq: u32,
    /// Events, in the order in which they were sent.
    pub events: Vec<InputEvent>,
}

impl View for InputFrame {
    type V = FrameModel;

    open spec fn view(&self) -> FrameModel {
        FrameModel { seq: self.seq, events: self.events@ }
    }
}

impl Default for InputFrame {
    fn default() -> (f: InputFrame)
        ensures
            f.seq == 0,
            f.events@ == Seq::<InputEvent>::empty(),
    {
        InputFrame { seq: 0, events: Vec::new() }
    }
}

impl InputFrame {
    /// Writes the frame to `out`, which is emptied first.
    ///
    /// Keeping one buffer from call to call spares the sender any allocation.
    pub fn encode_into(&self, out: &mut Vec<u8>)
        ensures
            final(out)@ == frame_bytes(self@),
    {
        let count: usize = if self.events.len() < MAX_EVENTS_PER_FRAME {
            self.events.len()
        } else {
            MAX_EVENTS_PER_FRAME
        };
        let ghost sent = sent_events(self.events@);
        out.clear();
        let mut size: usize = FRAME_HEADER_LEN;
        let mut k: usize = 0;
        while k < count
            invariant
                k <= count <= MAX_EVENTS_PER_FRAME,
                count <= self.events@.len(),
                size <= FRAME_HEADER_LEN + 5 * k,
            decreases count - k,
        {
            size = size + self.events[k].encoded_len();
            k = k + 1;
        }
        out.reserve(size);
        out.push(FRAME_VERSION);
        bytes::push_u32_le(out, self.seq);
        out.push(count as u8);
        let ghost header = seq![FRAME_VERSION] + bytes::u32_le(self.seq) + seq![count as u8];
        assert(out@ =~= header + events_bytes(sent.take(0)));
        let mut i: usize = 0;
        while i < count
            invariant
                i <= count,
                count == sent.len(),
                count <= self.events@.len(),
                sent == sent_events(self.events@),
                out@ == header + events_bytes(sent.take(i as int)),
            decreases count - i,
        {
            self.events[i].encode_into(out);
            proof {
                lemma_events_bytes_push(sent.take(i as int), sent[i as int]);
                assert(sent.take(i as int).push(sent[i as int]) =~= sent.take(i + 1));
                assert(sent[i as int] == self.events@[i as int]);
                assert(out@ =~= header + events_bytes(sent.take(i + 1)));
            }
            i = i + 1;
        }
        assert(sent.take(count as int) =~= sent);
        assert(out@ =~= frame_bytes(self@));
    }

    /// Writes the frame to a new vector.
    pub fn encode(&self) -> (out: Vec<u8>)
        ensures
            out@ == frame_bytes(self@),
    {
        let mut out: Vec<u8> = Vec::new();
        self.encode_into(&mut out);
        out
    }

    /// Decodes a received frame.
    ///
    /// The buffer comes from the network and is never taken to be well formed:
    /// whatever it holds, the outcome is a frame or an error.
    pub fn decode(buf: &[u8]) -> (r: Result<InputFrame, ProtoError>)
        ensures
            match (r, parse_frame(buf@)) {
                (Ok(frame), Ok(model)) => frame@ == model,
                (Err(e), Err(expected)) => e == expected,
                _ => false,
            },
    {
        if buf.len() < FRAME_HEADER_LEN {
            return Err(ProtoError::Truncated { need: FRAME_HEADER_LEN, have: buf.len() });
        }
        if buf[0] != FRAME_VERSION {
            return Err(ProtoError::BadVersion(buf[0]));
        }
        let seq: u32 = bytes::read_u32_le(buf, 1);
        let count: usize = buf[5] as usize;
        if count > MAX_EVENTS_PER_FRAME {
            return Err(ProtoError::TooManyEvents(count));
        }
        let mut cursor: usize = FRAME_HEADER_LEN;
        let mut events: Vec<InputEvent> = Vec::with_capacity(count);
        let ghost body = buf@.skip(FRAME_HEADER_LEN as int);
        let mut i: usize = 0;
        while i < count
            invariant
                i <= count,
                cursor <= buf@.len(),
                body == buf@.skip(FRAME_HEADER_LEN as int),
                buf@.len() >= FRAME_HEADER_LEN,
                buf@[0] == FRAME_VERSION,
                count == buf@[5],
                count <= MAX_EVENTS_PER_FRAME,
                parse_events(body, count as nat) == match parse_events(
                    buf@.skip(cursor as int),
                    (count - i) as nat,
                ) {
                    Err(e) => Err(e),
                    Ok((more, rest)) => Ok((events@ + more, rest)),
                },
            decreases count - i,
        {
            let ghost before = events@;
            let tail = vstd::slice::slice_subrange(buf, cursor, buf.len());
            assert(tail@ =~= buf@.skip(cursor as int));
            match decode_event(tail) {
                Err(e) => {
                    return Err(e);
                },
                Ok((event, consumed)) => {
                    events.push(event);
                    proof {
                        assert(tail@.skip(consumed as int) =~= buf@.skip(cursor + consumed));
                        match parse_events(buf@.skip(cursor + consumed), (count - i - 1) as nat) {
                            Err(_) => {},
                            Ok((more, _)) => {
                                assert(before + (seq![event] + more) =~= events@ + more);
                            },
                        }
                    }
                    cursor = cursor + consumed;
                },
            }
            i = i + 1;
        }
        assert(events@ + Seq::<InputEvent>::empty() =~= events@);
        if cursor != buf.len() {
            return Err(ProtoError::TrailingBytes(buf.len() - cursor));
        }
        Ok(InputFrame { seq, events })
    }
}

/// Decodes the event at the head of a buffer, and tells its length.
pub fn decode_event(buf: &[u8]) -> (r: Result<(InputEvent, usize), ProtoError>)
    ensures
        match (r, parse_event(buf@)) {
            (Ok((event, used)), Ok((e, n))) => event == e && used == n && n <= buf@.len(),
            (Err(e), Err(expected)) => e == expected,
            _ => false,
        },
{
    if buf.len() < 1 {
        return Err(ProtoError::Truncated { need: 1, have: buf.len() });
    }
    let kind: u8 = buf[0];
    if kind == KIND_MOUSE_MOVE_REL {
        if buf.len() < 5 {
            return Err(ProtoError::Truncated { need: 5, have: buf.len() });
        }
        let event = InputEvent::MouseMoveRelative {
            dx: bytes::read_i16_le(buf, 1),
            dy: bytes::read_i16_le(buf, 3),
        };
        Ok((event, 5))
    } else if kind == KIND_MOUSE_MOVE_ABS {
        if buf.len() < 5 {
            return Err(ProtoError::Truncated { need: 5, have: buf.len() });
        }
        let event = InputEvent::MouseMoveAbsolute {
            x: bytes::read_u16_le(buf, 1),
            y: bytes::read_u16_le(buf, 3),
        };
        Ok((event, 5))
    } else if kind == KIND_MOUSE_BUTTON {
        if buf.len() < 3 {
            return Err(ProtoError::Truncated { need: 3, have: buf.len() });
        }
        match MouseButton::from_u8(buf[1]) {
            None => Err(ProtoError::UnknownEvent(KIND_MOUSE_BUTTON)),
            Some(button) => Ok((InputEvent::MouseButton { button, pressed: buf[2] != 0 }, 3)),
        }
    } else if kind == KIND_MOUSE_SCROLL {
        if buf.len() < 5 {
            return Err(ProtoError::Truncated { need: 5, have: buf.len() });
        }
        let event = InputEvent::MouseScroll {
            dx: bytes::read_i16_le(buf, 1),
            dy: bytes::read_i16_le(buf, 3),
        };
        Ok((event, 5))
    } else if kind == KIND_KEY {
        if buf.len() < 4 {
            return Err(ProtoError::Truncated { need: 4, have: buf.len() });
        }
        let flags: u8 = buf[3];
        assert((flags & FLAG_PRESSED != 0) == (flags % 2 == 1)) by (bit_vector);
        assert((flags & FLAG_EXTENDED != 0) == (flags / 2 % 2 == 1)) by (bit_vector);
        let event = InputEvent::Key {
            scancode: bytes::read_u16_le(buf, 1),
            pressed: flags & FLAG_PRESSED != 0,
            extended: flags & FLAG_EXTENDED != 0,
        };
        Ok((event, 4))
    } else {
        Err(ProtoError::UnknownEvent(kind))
    }
}

/// Sending one more event appends its bytes.
proof fn lemma_events_bytes_push(es: Seq<InputEvent>, e: InputEvent)
    ensures
        events_bytes(es.push(e)) == events_bytes(es) + event_bytes(e),
    decreases es.len(),
{
    if es.len() == 0 {
        assert(es.push(e).drop_first() =~= es);
        assert(events_bytes(es.push(e)) =~= events_bytes(es) + event_bytes(e));
    } else {
        lemma_events_bytes_push(es.drop_first(), e);
        assert(es.push(e).drop_first() =~= es.drop_first().push(e));
        assert(events_bytes(es.push(e)) =~= events_bytes(es) + event_bytes(e));
    }
}

/// An event is read back from its bytes, whatever follows them.
pub proof fn law_event_roundtrip(e: InputEvent, tail: Seq<u8>)
    ensures
        parse_event(event_bytes(e) + tail) == Ok::<(InputEvent, nat), ProtoError>(
            (e, event_bytes(e).len()),
        ),
{
    let b = event_bytes(e) + tail;
    match e {
        InputEvent::MouseMoveRelative { dx, dy } => {
            bytes::lemma_i16_roundtrip(dx);
            bytes::lemma_i16_roundtrip(dy);
        },
        InputEvent::MouseScroll { dx, dy } => {
            bytes::lemma_i16_roundtrip(dx);
            bytes::lemma_i16_roundtrip(dy);
        },
        _ => {},
    }
}

/// A decoded event takes three to five bytes, as many as it takes on the wire. What
/// follows them does not count, and cut anywhere before their end they are refused as
/// truncated.
pub proof fn law_an_event_needs_all_its_bytes(b: Seq<u8>, m: int)
    requires
        parse_event(b) is Ok,
        0 <= m <= usize::MAX,
    ensures
        ({
            let (e, n) = parse_event(b)->Ok_0;
            &&& 3 <= n <= 5
            &&& n <= b.len()
            &&& n == event_bytes(e).len()
            &&& parse_event(b.take(n as int)) == Ok::<(InputEvent, nat), ProtoError>((e, n))
            &&& m < n ==> (parse_event(b.take(m)) matches Err(
                ProtoError::Truncated { need, have },
            ) && have == m && m < need <= n)
        }),
{
}

/// A list of events is read back from its bytes, whatever follows them.
pub proof fn law_events_roundtrip(es: Seq<InputEvent>, tail: Seq<u8>)
    ensures
        parse_events(events_bytes(es) + tail, es.len()) == Ok::<
            (Seq<InputEvent>, Seq<u8>),
            ProtoError,
        >((es, tail)),
    decreases es.len(),
{
    if es.len() == 0 {
        assert(events_bytes(es) + tail =~= tail);
        assert(es =~= Seq::<InputEvent>::empty());
    } else {
        let rest = events_bytes(es.drop_first()) + tail;
        assert(events_bytes(es) + tail =~= event_bytes(es[0]) + rest);
        law_event_roundtrip(es[0], rest);
        assert((event_bytes(es[0]) + rest).skip(event_bytes(es[0]).len() as int) =~= rest);
        law_events_roundtrip(es.drop_first(), tail);
        assert(seq![es[0]] + es.drop_first() =~= es);
    }
}

/// Decoding what was encoded gives the frame back: every event if there are at
/// most 64, else the first 64 of them.
pub proof fn law_frame_roundtrip(f: FrameModel)
    ensures
        parse_frame(frame_bytes(f)) == Ok::<FrameModel, ProtoError>(
            FrameModel { seq: f.seq, events: sent_events(f.events) },
        ),
        f.events.len() <= MAX_EVENTS_PER_FRAME ==> parse_frame(frame_bytes(f)) == Ok::<
            FrameModel,
            ProtoError,
        >(f),
{
    let sent = sent_events(f.events);
    let b = frame_bytes(f);
    law_events_roundtrip(sent, Seq::empty());
    assert(b.skip(FRAME_HEADER_LEN as int) =~= events_bytes(sent) + Seq::<u8>::empty());
    bytes::lemma_u32_roundtrip(f.seq);
}

/// Two frames within the limit that encode to the same bytes are the same frame.
pub proof fn law_frame_encoding_is_injective(f: FrameModel, g: FrameModel)
    requires
        f.events.len() <= MAX_EVENTS_PER_FRAME,
        g.events.len() <= MAX_EVENTS_PER_FRAME,
        frame_bytes(f) == frame_bytes(g),
    ensures
        f == g,
{
    law_frame_roundtrip(f);
    law_frame_roundtrip(g);
}

/// The events that a successful decoding hands out number exactly what was asked.
proof fn lemma_parse_events_count(b: Seq<u8>, n: nat)
    ensures
        parse_events(b, n) matches Ok((events, _)) ==> events.len() == n,
    decreases n,
{
    if n > 0 {
        match parse_event(b) {
            Ok((_, used)) => lemma_parse_events_count(b.skip(used as int), (n - 1) as nat),
            Err(_) => {},
        }
    }
}

/// Whatever the bytes, a decoded frame holds at most 64 events, and encoding it
/// again loses nothing.
pub proof fn law_decoded_frame_is_within_limits(b: Seq<u8>)
    ensures
        parse_frame(b) matches Ok(f) ==> f.events.len() <= MAX_EVENTS_PER_FRAME && parse_frame(
            frame_bytes(f),
        ) == Ok::<FrameModel, ProtoError>(f),
{
    match parse_frame(b) {
        Ok(f) => {
            lemma_parse_events_count(b.skip(FRAME_HEADER_LEN as int), b[5] as nat);
            law_frame_roundtrip(f);
        },
        Err(_) => {},
    }
}

/// A list of events takes between three and five bytes per event.
proof fn lemma_events_bytes_len(es: Seq<InputEvent>)
    ensures
        3 * es.len() <= events_bytes(es).len() <= 5 * es.len(),
    decreases es.len(),
{
    if es.len() > 0 {
        lemma_events_bytes_len(es.drop_first());
    }
}

/// A frame stays compact: its header and at most five bytes per event sent, so
/// never more than 326 bytes.
pub proof fn law_frame_is_compact(f: FrameModel)
    ensures
        frame_bytes(f).len() == FRAME_HEADER_LEN + events_bytes(sent_events(f.events)).len(),
        frame_bytes(f).len() <= FRAME_HEADER_LEN + 5 * sent_events(f.events).len(),
        frame_bytes(f).len() <= 326,
{
    lemma_events_bytes_len(sent_events(f.events));
}

/// How far `seq` is ahead of `last`, going round at 2^32.
pub open spec fn seq_ahead(seq: u32, last: u32) -> int {
    (seq - last) % 0x1_0000_0000
}

/// Whether `seq` is strictly more recent than `last`: ahead of it, by a distance in the
/// low half of the number space.
pub open spec fn seq_newer(seq: u32, last: u32) -> bool {
    0 < seq_ahead(seq, last) < 0x8000_0000
}

/// Acceptance window of the sequence numbers.
///
/// On an unordered channel a frame can overtake the one before. Only what is
/// strictly more recent is accepted, in cyclic comparison, which holds across
/// the wrap-around of `u32`.
#[derive(Debug, Clone, Copy)]
pub struct SeqTracker {
    last: Option<u32>,
}

impl View for SeqTracker {
    type V = Option<u32>;

    closed spec fn view(&self) -> Option<u32> {
        self.last
    }
}

impl Default for SeqTracker {
    fn default() -> (t: SeqTracker)
        ensures
            t@ == None::<u32>,
    {
        SeqTracker { last: None }
    }
}

impl SeqTracker {
    /// A tracker that has seen no frame.
    pub fn new() -> (t: SeqTracker)
        ensures
            t@ == None::<u32>,
    {
        SeqTracker { last: None }
    }

    /// Whether the frame is to be applied; if so, its number is remembered.
    pub fn accept(&mut self, seq: u32) -> (ok: bool)
        ensures
            ok == (old(self)@ matches Some(last) ==> seq_newer(seq, last)),
            final(self)@ == if ok {
                Some(seq)
            } else {
                old(self)@
            },
    {
        match self.last {
            None => {
                self.last = Some(seq);
                true
            },
            Some(last) => {
                let delta: u32 = seq.wrapping_sub(last);
                assert(delta == seq_ahead(seq, last));
                if delta != 0 && delta < 0x8000_0000 {
                    self.last = Some(seq);
                    true
                } else {
                    false
                }
            },
        }
    }

    /// The last number accepted.
    pub fn last(&self) -> (r: Option<u32>)
        ensures
            r == self@,
    {
        self.last
    }

    /// Forgets what was seen, when a client reconnects.
    pub fn reset(&mut self)
        ensures
            final(self)@ == None::<u32>,
    {
        self.last = None;
    }
}

/// A frame is never taken to be more recent than itself, and of two different
/// frames at most one is more recent than the other: a frame that was overtaken
/// stays refused. One of the two is, unless they are half of the number space apart.
pub proof fn law_newer_is_a_strict_order_of_two(a: u32, b: u32)
    ensures
        !seq_newer(a, a),
        seq_newer(a, b) ==> !seq_newer(b, a),
        a != b && seq_ahead(a, b) != 0x8000_0000 ==> seq_newer(a, b) || seq_newer(b, a),
{
}

/// Consecutive numbers are in order everywhere, the wrap-around from `u32::MAX`
/// to zero among them.
pub proof fn law_next_number_is_newer(a: u32)
    ensures
        seq_newer(((a + 1) % 0x1_0000_0000) as u32, a),
        !seq_newer(a, ((a + 1) % 0x1_0000_0000) as u32),
{
}

/// The five kinds of events on the wire. A move or a scroll is its kind, then the
/// horizontal and the vertical amount, in two bytes each, low byte first, in two's
/// complement; a position the same without a sign. A button is its kind, its number and
/// whether it goes down. A key is its kind, its scancode and its flags: one for a press,
/// two for the prefix.
pub proof fn law_events_on_the_wire(e: InputEvent)
    ensures
        ({
            let b = event_bytes(e);
            match e {
                InputEvent::MouseMoveRelative { dx, dy } => {
                    &&& b.len() == 5 && b[0] == 1
                    &&& b[1] + 256 * b[2] == dx as int % 65536
                    &&& b[3] + 256 * b[4] == dy as int % 65536
                },
                InputEvent::MouseMoveAbsolute { x, y } => {
                    &&& b.len() == 5 && b[0] == 2
                    &&& b[1] + 256 * b[2] == x
                    &&& b[3] + 256 * b[4] == y
                },
                InputEvent::MouseButton { button, pressed } => {
                    &&& b.len() == 3 && b[0] == 3
                    &&& b[1] == 0 <==> button is Left
                    &&& b[1] == 1 <==> button is Right
                    &&& b[1] == 2 <==> button is Middle
                    &&& b[1] == 3 <==> button is X1
                    &&& b[1] == 4 <==> button is X2
                    &&& b[2] == 1 <==> pressed
                    &&& b[2] == 0 <==> !pressed
                },
                InputEvent::MouseScroll { dx, dy } => {
                    &&& b.len() == 5 && b[0] == 4
                    &&& b[1] + 256 * b[2] == dx as int % 65536
                    &&& b[3] + 256 * b[4] == dy as int % 65536
                },
                InputEvent::Key { scancode, pressed, extended } => {
                    &&& b.len() == 4 && b[0] == 5
                    &&& b[1] + 256 * b[2] == scancode
                    &&& b[3] < 4
                    &&& b[3] % 2 == 1 <==> pressed
                    &&& b[3] >= 2 <==> extended
                },
            }
        }),
{
}

/// What is read at the head of a buffer is what stands there. The first byte tells the
/// kind and so the length; amounts are read low byte first; a button goes down unless its
/// last byte is zero; of a key's flags the two lowest bits count, and no other.
pub proof fn law_events_are_read_as_written(b: Seq<u8>)
    requires
        b.len() <= usize::MAX,
    ensures
        parse_event(b) is Ok <==> {
            ||| b.len() >= 5 && (b[0] == 1 || b[0] == 2 || b[0] == 4)
            ||| b.len() >= 3 && b[0] == 3 && b[1] <= 4
            ||| b.len() >= 4 && b[0] == 5
        },
        parse_event(b) matches Err(ProtoError::UnknownEvent(k)) ==> b.len() >= 1 && k == b[0] && (
        k == 0 || k > 5 || (k == 3 && b.len() >= 3 && b[1] > 4)),
        parse_event(b) matches Err(ProtoError::Truncated { need, have }) ==> have == b.len()
            && have < need && need == (if b.len() == 0 {
            1int
        } else if b[0] == 3 {
            3
        } else if b[0] == 5 {
            4
        } else {
            5
        }),
        parse_event(b) matches Ok((e, n)) ==> match e {
            InputEvent::MouseMoveRelative { dx, dy } => b[0] == 1 && n == 5 && dx as int % 65536
                == b[1] + 256 * b[2] && dy as int % 65536 == b[3] + 256 * b[4],
            InputEvent::MouseMoveAbsolute { x, y } => b[0] == 2 && n == 5 && x == b[1] + 256 * b[2]
                && y == b[3] + 256 * b[4],
            InputEvent::MouseButton { button, pressed } => {
                &&& b[0] == 3 && n == 3
                &&& b[1] == 0 <==> button is Left
                &&& b[1] == 1 <==> button is Right
                &&& b[1] == 2 <==> button is Middle
                &&& b[1] == 3 <==> button is X1
                &&& b[1] == 4 <==> button is X2
                &&& pressed <==> b[2] != 0
            },
            InputEvent::MouseScroll { dx, dy } => b[0] == 4 && n == 5 && dx as int % 65536 == b[1]
                + 256 * b[2] && dy as int % 65536 == b[3] + 256 * b[4],
            InputEvent::Key { scancode, pressed, extended } => b[0] == 5 && n == 4 && scancode
                == b[1] + 256 * b[2] && (pressed <==> b[3] % 2 == 1) && (extended <==> b[3] % 4
                >= 2),
        },
{
}

/// A frame on the wire: one byte for the version, which is one, four for the number, low
/// byte first, one for the count of events, then the events in order, 64 at most.
pub proof fn law_frames_on_the_wire(f: FrameModel, k: int)
    requires
        0 <= k < f.events.len(),
        k < 64,
    ensures
        ({
            let b = frame_bytes(f);
            let n = if f.events.len() < 64 {
                f.events.len()
            } else {
                64
            };
            let at = 6 + events_bytes(f.events.take(k)).len() as int;
            &&& b[0] == 1
            &&& b[1] + 256 * b[2] + 65536 * b[3] + 16777216 * b[4] == f.seq
            &&& b[5] == n
            &&& at + event_bytes(f.events[k]).len() <= b.len()
            &&& b.subrange(at, at + event_bytes(f.events[k]).len()) == event_bytes(f.events[k])
            &&& k == n - 1 ==> b.len() == at + event_bytes(f.events[k]).len()
        }),
{
    let b = frame_bytes(f);
    let sent = sent_events(f.events);
    bytes::lemma_u32_roundtrip(f.seq);
    let h = bytes::u32_le(f.seq);
    assert(b[1] == h[0] && b[2] == h[1] && b[3] == h[2] && b[4] == h[3]);
    let body = events_bytes(sent);
    lemma_event_within(sent, k);
    assert(sent.take(k) =~= f.events.take(k));
    assert(sent[k] == f.events[k]);
    assert(b.skip(6) =~= body);
    let at = events_bytes(sent.take(k)).len() as int;
    let len = event_bytes(sent[k]).len() as int;
    assert(b.subrange(6 + at, 6 + at + len) =~= body.subrange(at, at + len));
}

/// An event of a list stands behind those before it.
proof fn lemma_event_within(es: Seq<InputEvent>, k: int)
    requires
        0 <= k < es.len(),
    ensures
        ({
            let at = events_bytes(es.take(k)).len() as int;
            let len = event_bytes(es[k]).len() as int;
            &&& at + len <= events_bytes(es).len()
            &&& events_bytes(es).subrange(at, at + len) == event_bytes(es[k])
            &&& k == es.len() - 1 ==> events_bytes(es).len() == at + len
        }),
    decreases es.len(),
{
    let rest = es.drop_first();
    let all = events_bytes(es);
    let head = event_bytes(es[0]);
    if k == 0 {
        assert(es.take(0) =~= Seq::<InputEvent>::empty());
        assert(all.subrange(0, head.len() as int) =~= head);
        if es.len() == 1 {
            assert(rest =~= Seq::<InputEvent>::empty());
        }
    } else {
        lemma_event_within(rest, k - 1);
        assert(rest[k - 1] == es[k]);
        assert(es.take(k).drop_first() =~= rest.take(k - 1));
        assert(es.take(k)[0] == es[0]);
        let at = events_bytes(rest.take(k - 1)).len() as int;
        let len = event_bytes(es[k]).len() as int;
        assert(all.subrange(head.len() + at, head.len() + at + len) =~= events_bytes(
            rest,
        ).subrange(at, at + len));
    }
}

/// What is read of a list of events: one after the other, each where the one before ends,
/// and the bytes that follow the last.
proof fn lemma_parsed_in_turn(b: Seq<u8>, n: nat, k: int)
    requires
        parse_events(b, n) is Ok,
        0 <= k < n,
    ensures
        ({
            let (es, rest) = parse_events(b, n)->Ok_0;
            let at = events_bytes(es.take(k)).len() as int;
            &&& es.len() == n
            &&& at <= b.len()
            &&& parse_event(b.skip(at)) == Ok::<(InputEvent, nat), ProtoError>(
                (es[k], event_bytes(es[k]).len()),
            )
            &&& b.len() == events_bytes(es).len() + rest.len()
        }),
    decreases n,
{
    let (e, used) = parse_event(b)->Ok_0;
    let tail = b.skip(used as int);
    let (more, rest) = parse_events(tail, (n - 1) as nat)->Ok_0;
    let es = parse_events(b, n)->Ok_0.0;
    assert(es =~= seq![e] + more);
    assert(es.drop_first() =~= more);
    assert(event_bytes(e).len() == used);
    if n > 1 {
        lemma_parsed_in_turn(tail, (n - 1) as nat, if k == 0 {
            0
        } else {
            k - 1
        });
    } else {
        assert(more =~= Seq::<InputEvent>::empty());
    }
    if k == 0 {
        assert(es.take(0) =~= Seq::<InputEvent>::empty());
        assert(b.skip(0) =~= b);
    } else {
        assert(es.take(k).drop_first() =~= more.take(k - 1));
        assert(es.take(k)[0] == e);
        let at = events_bytes(more.take(k - 1)).len() as int;
        assert(tail.skip(at) =~= b.skip(used + at));
    }
}

/// What a received buffer comes to. A frame has version one and at most 64 events; its
/// number and its count stand in the header; its events stand behind it, in their order,
/// and nothing follows them. What is refused is shorter than a header, of another
/// version, too dense, not a list of events, or goes on behind the last event.
pub proof fn law_frames_are_read_as_written(b: Seq<u8>, k: int)
    requires
        b.len() <= usize::MAX,
    ensures
        parse_frame(b) matches Ok(f) ==> {
            &&& b.len() >= 6 && b[0] == 1 && b[5] <= 64
            &&& f.seq == b[1] + 256 * b[2] + 65536 * b[3] + 16777216 * b[4]
            &&& f.events.len() == b[5]
            &&& b.len() == 6 + events_bytes(f.events).len()
            &&& 0 <= k < f.events.len() ==> parse_event(
                b.skip(6 + events_bytes(f.events.take(k)).len() as int),
            ) == Ok::<(InputEvent, nat), ProtoError>((f.events[k], event_bytes(f.events[k]).len()))
        },
        b.len() < 6 ==> parse_frame(b) == Err::<FrameModel, ProtoError>(
            ProtoError::Truncated { need: 6, have: b.len() as usize },
        ),
        b.len() >= 6 && b[0] != 1 ==> parse_frame(b) == Err::<FrameModel, ProtoError>(
            ProtoError::BadVersion(b[0]),
        ),
        b.len() >= 6 && b[0] == 1 && b[5] > 64 ==> parse_frame(b) == Err::<FrameModel, ProtoError>(
            ProtoError::TooManyEvents(b[5] as usize),
        ),
        b.len() == 6 && b[0] == 1 && b[5] == 0 ==> parse_frame(b) is Ok,
        b.len() > 6 && b[0] == 1 && b[5] == 0 ==> parse_frame(b) == Err::<FrameModel, ProtoError>(
            ProtoError::TrailingBytes((b.len() - 6) as usize),
        ),
{
    if parse_frame(b) is Ok {
        let f = parse_frame(b)->Ok_0;
        let body = b.skip(6);
        let n = b[5] as nat;
        if n > 0 {
            let j = if 0 <= k < n {
                k
            } else {
                0
            };
            lemma_parsed_in_turn(body, n, j);
            let at = events_bytes(f.events.take(j)).len() as int;
            assert(body.skip(at) =~= b.skip(6 + at));
        }
    }
}

/// A frame with anything behind its events is refused, and told how many bytes that is.
pub proof fn law_bytes_behind_the_events_are_refused(f: FrameModel, extra: Seq<u8>)
    requires
        f.events.len() <= 64,
        0 < extra.len() <= 0xFFFF,
    ensures
        parse_frame(frame_bytes(f) + extra) == Err::<FrameModel, ProtoError>(
            ProtoError::TrailingBytes(extra.len() as usize),
        ),
{
    let b = frame_bytes(f) + extra;
    law_events_roundtrip(f.events, extra);
    assert(sent_events(f.events) == f.events);
    assert(b.skip(FRAME_HEADER_LEN as int) =~= events_bytes(f.events) + extra);
}

/// Which of two numbers is the more recent, in plain words: the one that is reached from
/// the other by counting up, less than 2^31 steps, and past the largest number to zero.
pub proof fn law_newer_means_counted_up(seq: u32, last: u32, steps: int)
    requires
        0 <= steps < 0x1_0000_0000,
        seq == (last + steps) % 0x1_0000_0000,
    ensures
        seq_newer(seq, last) <==> 1 <= steps <= 0x7FFF_FFFF,
{
    assert((seq - last) % 0x1_0000_0000 == steps);
}

} // verus!
