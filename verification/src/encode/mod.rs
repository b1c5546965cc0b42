//! Hardware video encoding.

pub mod converter;
pub mod mediafoundation;

use crate::text;
use vstd::prelude::*;

verus! {

/// Pixels of the surface that the bitrates refer to.
pub const REFERENCE_PIXELS: u64 = 2_073_600;

/// Parameters of an encoding session.
#[derive(Debug, Clone, Copy, PartialEq, Eq, Structural)]
pub struct EncoderConfig {
    /// Width of the image, in pixels.
    pub width: u32,
    /// Height of the image, in pixels.
    pub height: u32,
    /// Nominal rate, in frames per second.
    pub framerate: u32,
    /// Target bitrate, in bits per second.
    pub bitrate: u32,
}

/// Whether a bitrate can be scaled to a surface within 64 bits.
pub open spec fn scaling_fits(width: u32, height: u32, bitrate_1080p: u32) -> bool {
    bitrate_1080p * (width * height) <= u64::MAX && width * height <= u64::MAX
}

/// A bitrate for 1080p, scaled to a surface and kept within 0.5 to 100 Mbit/s.
pub open spec fn scaled(width: u32, height: u32, bitrate_1080p: u32) -> u32 {
    let raw = bitrate_1080p * (width * height) / (REFERENCE_PIXELS as int);
    if raw < 500_000 {
        500_000
    } else if raw > 100_000_000 {
        100_000_000
    } else {
        raw as u32
    }
}

impl EncoderConfig {
    /// Whether [`EncoderConfig::scale_bitrate_to_resolution`] can be called.
    pub fn scaling_fits(&self, bitrate_1080p: u32) -> (b: bool)
        ensures
            b == scaling_fits(self.width, self.height, bitrate_1080p),
    {
        proof {
            lemma_area(self.width, self.height);
            lemma_product(bitrate_1080p, self.width, self.height);
        }
        let pixels: u128 = self.width as u128 * self.height as u128;
        bitrate_1080p as u128 * pixels <= u64::MAX as u128
    }

    /// Scales the bitrate to the real number of pixels.
    ///
    /// The quality presets are given for 1080p; on a larger or smaller screen the
    /// bitrate follows the surface.
    pub fn scale_bitrate_to_resolution(self, bitrate_1080p: u32) -> (c: EncoderConfig)
        requires
            scaling_fits(self.width, self.height, bitrate_1080p),
        ensures
            c == (EncoderConfig {
                bitrate: scaled(self.width, self.height, bitrate_1080p),
                ..self
            }),
    {
        proof {
            lemma_area(self.width, self.height);
            lemma_product(bitrate_1080p, self.width, self.height);
        }
        let pixels: u64 = self.width as u64 * self.height as u64;
        let raw: u64 = bitrate_1080p as u64 * pixels / REFERENCE_PIXELS;
        let bitrate: u32 = if raw < 500_000 {
            500_000
        } else if raw > 100_000_000 {
            100_000_000
        } else {
            raw as u32
        };
        EncoderConfig { bitrate, ..self }
    }
}

proof fn lemma_area(w: u32, h: u32)
    ensures
        0 <= w * h <= u64::MAX,
{
    assert(0 <= w * h <= 0xFFFF_FFFF * 0xFFFF_FFFF) by (nonlinear_arith)
        requires
            0 <= w <= 0xFFFF_FFFF,
            0 <= h <= 0xFFFF_FFFF,
    ;
}

proof fn lemma_product(b: u32, w: u32, h: u32)
    ensures
        0 <= b * (w * h) <= u128::MAX,
{
    lemma_area(w, h);
    let p = w * h;
    assert(0 <= b * p <= 0xFFFF_FFFF * 0xFFFF_FFFF_FFFF_FFFF) by (nonlinear_arith)
        requires
            0 <= b <= 0xFFFF_FFFF,
            0 <= p <= 0xFFFF_FFFF_FFFF_FFFF,
    ;
}

/// Whatever the surface and the preset, the bitrate stays within 0.5 to 100 Mbit/s.
pub proof fn law_scaled_bitrate_is_bounded(width: u32, height: u32, bitrate_1080p: u32)
    ensures
        500_000 <= scaled(width, height, bitrate_1080p) <= 100_000_000,
{
}

/// A larger surface never gets a lower bitrate.
pub proof fn law_bitrate_follows_the_surface(
    width: u32,
    height: u32,
    larger_width: u32,
    larger_height: u32,
    bitrate_1080p: u32,
)
    requires
        width <= larger_width,
        height <= larger_height,
    ensures
        scaled(width, height, bitrate_1080p) <= scaled(
            larger_width,
            larger_height,
            bitrate_1080p,
        ),
{
    let p = width * height;
    let q = larger_width * larger_height;
    assert(p <= q) by (nonlinear_arith)
        requires
            p == width * height,
            q == larger_width * larger_height,
            0 <= width <= larger_width,
            0 <= height <= larger_height,
    ;
    assert(bitrate_1080p * p <= bitrate_1080p * q) by (nonlinear_arith)
        requires
            p <= q,
            0 <= bitrate_1080p,
    ;
    assert(bitrate_1080p * p / 2_073_600 <= bitrate_1080p * q / 2_073_600);
}

/// On the reference surface, a bitrate within the bounds stays as it is.
pub proof fn law_reference_surface_keeps_the_bitrate(bitrate_1080p: u32)
    requires
        500_000 <= bitrate_1080p <= 100_000_000,
    ensures
        scaled(1920, 1080, bitrate_1080p) == bitrate_1080p,
{
    assert(1920u32 * 1080u32 == 2_073_600);
}

/// An H.264 access unit, ready to be packetised.
#[derive(Debug, Clone)]
pub struct EncodedFrame {
    /// Bit stream in Annex B (`00 00 00 01` before each unit).
    pub data: Vec<u8>,
    /// Presentation time since the start of the session, in nanoseconds.
    pub timestamp: u64,
    /// Whether the unit is a key frame.
    pub keyframe: bool,
}

/// An access unit as a mathematical value.
#[verifier::ext_equal]
pub struct EncodedModel {
    /// Bit stream.
    pub data: Seq<u8>,
    /// Presentation time, in nanoseconds.
    pub timestamp: u64,
    /// Whether the unit is a key frame.
    pub keyframe: bool,
}

impl View for EncodedFrame {
    type V = EncodedModel;

    open spec fn view(&self) -> EncodedModel {
        EncodedModel { data: self.data@, timestamp: self.timestamp, keyframe: self.keyframe }
    }
}

/// Why encoding failed.
#[derive(Debug, Clone, PartialEq, Eq)]
pub enum EncodeError {
    /// No suitable hardware encoder was found.
    NoHardwareEncoder {
        /// Codec searched for.
        codec: &'static str,
    },
    /// The encoder changed its output format, and no new one could be agreed on.
    FormatChange,
    /// The system's interface reported an error.
    System(String),
}

/// An encoding error in words.
pub open spec fn error_text(e: EncodeError) -> Seq<char> {
    match e {
        EncodeError::NoHardwareEncoder { codec } => "aucun encodeur matériel "@ + codec@
            + " disponible sur cette machine"@,
        EncodeError::FormatChange => {
            "le format de sortie a changé et n'a pas pu être renégocié"@
        },
        EncodeError::System(detail) => "erreur système: "@ + detail@,
    }
}

impl EncodeError {
    /// The error in words.
    pub fn message(&self) -> (s: String)
        ensures
            s@ == error_text(*self),
    {
        let mut s = String::new();
        match self {
            EncodeError::NoHardwareEncoder { codec } => {
                text::push_text(&mut s, "aucun encodeur matériel ");
                text::push_text(&mut s, codec);
                text::push_text(&mut s, " disponible sur cette machine");
            },
            EncodeError::FormatChange => {
                text::push_text(
                    &mut s,
                    "le format de sortie a changé et n'a pas pu être renégocié",
                );
            },
            EncodeError::System(detail) => {
                text::push_text(&mut s, "erreur système: ");
                text::push_text(&mut s, detail.as_str());
            },
        }
        assert(s@ =~= error_text(*self));
        s
    }
}

/// The bitrate is in proportion to the surface: of all whole numbers it is the largest
/// whose share of the 1080p surface does not exceed the share asked for, unless that lies
/// outside 0.5 to 100 Mbit/s, and then it is the nearer of the two.
pub proof fn law_the_bitrate_is_in_proportion(width: u32, height: u32, bitrate_1080p: u32)
    ensures
        ({
            let b = scaled(width, height, bitrate_1080p) as int;
            let asked = bitrate_1080p * (width * height);
            &&& 500_000 < b < 100_000_000 ==> b * 2_073_600 <= asked < (b + 1) * 2_073_600
            &&& b == 500_000 <==> asked < 500_001 * 2_073_600
            &&& b == 100_000_000 <==> asked >= 100_000_000 * 2_073_600
        }),
{
    let asked = bitrate_1080p * (width * height);
    lemma_product(bitrate_1080p, width, height);
    let raw = asked / 2_073_600;
    assert(raw * 2_073_600 <= asked < (raw + 1) * 2_073_600);
}

/// An error shows what it is about: the codec that no encoder makes, the format that changed,
/// or the detail that the system gave.
pub proof fn law_errors_show_what_they_are_about(e: EncodeError)
    ensures
        e matches EncodeError::NoHardwareEncoder { codec } ==> text::shows(error_text(e), codec@),
        e matches EncodeError::System(detail) ==> text::shows(error_text(e), detail@),
        e is FormatChange ==> text::shows(error_text(e), "format"@),
{
    match e {
        EncodeError::NoHardwareEncoder { codec } => text::lemma_shows(
            "aucun encodeur matériel "@,
            codec@,
            " disponible sur cette machine"@,
        ),
        EncodeError::System(detail) => text::lemma_shows(
            "erreur système: "@,
            detail@,
            Seq::empty(),
        ),
        EncodeError::FormatChange => {
            reveal_strlit("format");
            reveal_strlit("le format de sortie a changé et n'a pas pu être renégocié");
            assert(error_text(e).subrange(3, 3int + "format"@.len()) =~= "format"@);
        },
    }
}

} // verus!
