//! Messages shared by the agent and its clients.
//!
//! - [`input`]: compact binary codec of the `input-raw` channel;
//! - [`control`]: typed commands of the `control-secure` channel;
//! - [`signaling`]: mutual authentication and the exchange of SDP and ICE;
//! - [`bytes`]: little-endian integers.

pub mod bytes;
pub mod control;
pub mod input;
pub mod signaling;

use crate::text;
use vstd::prelude::*;

verus! {

/// Label of the real-time data channel (mouse, keyboard, wheel).
pub const CHANNEL_INPUT: &'static str = "input-raw";

/// Label of the reliable data channel (system commands, telemetry).
pub const CHANNEL_CONTROL: &'static str = "control-secure";

/// Version of the application protocol. A client that announces another one is
/// turned away during the handshake.
pub const PROTOCOL_VERSION: u16 = 1;

/// Why a received frame was refused.
#[derive(Debug, Clone, Copy, PartialEq, Eq, Structural)]
pub enum ProtoError {
    /// The buffer is shorter than what its header announces.
    Truncated {
        /// Bytes needed.
        need: usize,
        /// Bytes actually there.
        have: usize,
    },
    /// Unknown kind of event.
    UnknownEvent(u8),
    /// Unsupported frame version.
    BadVersion(u8),
    /// More events than the hard limit.
    TooManyEvents(usize),
    /// Bytes left over once the frame is decoded.
    TrailingBytes(usize),
}

/// A refusal in words.
pub open spec fn error_text(e: ProtoError) -> Seq<char> {
    match e {
        ProtoError::Truncated { need, have } => "tampon tronqué: "@ + text::decimal(need as nat)
            + " octets requis, "@ + text::decimal(have as nat) + " disponibles"@,
        ProtoError::UnknownEvent(kind) => "type d'événement inconnu: 0x"@ + signaling::hex_text(
            seq![kind],
        ),
        ProtoError::BadVersion(version) => "version de trame non supportée: "@ + text::decimal(
            version as nat,
        ),
        ProtoError::TooManyEvents(n) => "trame trop dense: "@ + text::decimal(n as nat)
            + " événements (max 64)"@,
        ProtoError::TrailingBytes(n) => text::decimal(n as nat)
            + " octets résiduels après la trame"@,
    }
}

impl ProtoError {
    /// The refusal in words.
    pub fn message(&self) -> (s: String)
        ensures
            s@ == error_text(*self),
    {
        let mut s = String::new();
        match *self {
            ProtoError::Truncated { need, have } => {
                text::push_text(&mut s, "tampon tronqué: ");
                text::push_decimal(&mut s, need as u64);
                text::push_text(&mut s, " octets requis, ");
                text::push_decimal(&mut s, have as u64);
                text::push_text(&mut s, " disponibles");
            },
            ProtoError::UnknownEvent(kind) => {
                let digits = signaling::to_hex(&[kind]);
                assert([kind]@ =~= seq![kind]);
                text::push_text(&mut s, "type d'événement inconnu: 0x");
                text::push_text(&mut s, digits.as_str());
            },
            ProtoError::BadVersion(version) => {
                text::push_text(&mut s, "version de trame non supportée: ");
                text::push_decimal(&mut s, version as u64);
            },
            ProtoError::TooManyEvents(n) => {
                text::push_text(&mut s, "trame trop dense: ");
                text::push_decimal(&mut s, n as u64);
                text::push_text(&mut s, " événements (max 64)");
            },
            ProtoError::TrailingBytes(n) => {
                text::push_decimal(&mut s, n as u64);
                text::push_text(&mut s, " octets résiduels après la trame");
            },
        }
        assert(s@ =~= error_text(*self));
        s
    }
}

/// An error shows the numbers that it is about, whole: how much was needed and then how much
/// there was, the kind in hexadecimal, the version, and how many events or bytes there were.
pub proof fn law_errors_show_their_numbers(e: ProtoError)
    ensures
        e matches ProtoError::Truncated { need, have } ==> text::shows_both(
            error_text(e),
            text::decimal(need as nat),
            text::decimal(have as nat),
        ),
        e matches ProtoError::UnknownEvent(kind) ==> text::shows(
            error_text(e),
            signaling::hex_text(seq![kind]),
        ),
        e matches ProtoError::BadVersion(version) ==> text::shows(
            error_text(e),
            text::decimal(version as nat),
        ),
        e matches ProtoError::TooManyEvents(n) ==> text::shows(
            error_text(e),
            text::decimal(n as nat),
        ),
        e matches ProtoError::TrailingBytes(n) ==> text::shows(
            error_text(e),
            text::decimal(n as nat),
        ),
{
    match e {
        ProtoError::Truncated { need, have } => text::lemma_shows_both(
            "tampon tronqué: "@,
            text::decimal(need as nat),
            " octets requis, "@,
            text::decimal(have as nat),
            " disponibles"@,
        ),
        ProtoError::UnknownEvent(kind) => text::lemma_shows(
            "type d'événement inconnu: 0x"@,
            signaling::hex_text(seq![kind]),
            Seq::empty(),
        ),
        ProtoError::BadVersion(version) => text::lemma_shows(
            "version de trame non supportée: "@,
            text::decimal(version as nat),
            Seq::empty(),
        ),
        ProtoError::TooManyEvents(n) => text::lemma_shows(
            "trame trop dense: "@,
            text::decimal(n as nat),
            " événements (max 64)"@,
        ),
        ProtoError::TrailingBytes(n) => text::lemma_shows(
            Seq::empty(),
            text::decimal(n as nat),
            " octets résiduels après la trame"@,
        ),
    }
}

} // verus!
