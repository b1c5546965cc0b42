//! Conversion from BGRA to NV12 on the video unit: what it is asked for.

use crate::capture::dxgi::TextureDesc;
use vstd::prelude::*;

verus! {

/// Colour space of the input: RGB, full range.
pub const INPUT_COLOR_SPACE: u32 = 0;

/// Colour space of the output: BT.709 matrix and studio range, which is what
/// browsers take an H.264 stream to be.
pub const OUTPUT_COLOR_SPACE: u32 = 20;

/// Luminance plane, then interleaved chrominance.
pub const FORMAT_NV12: u32 = 103;

/// The texture can be drawn to.
pub const BIND_RENDER_TARGET: u32 = 0x20;

/// A conversion between two textures of the same size.
#[derive(Debug, Clone, Copy, PartialEq, Eq, Structural)]
pub struct Nv12Converter {
    /// Width of both textures, in pixels.
    pub width: u32,
    /// Height of both textures, in pixels.
    pub height: u32,
    /// Rate of both, in frames per second, over one.
    pub rate_numerator: u32,
    /// Denominator of the rate.
    pub rate_denominator: u32,
    /// Colour space of the input.
    pub input_color_space: u32,
    /// Colour space of the output.
    pub output_color_space: u32,
    /// The texture that the encoder reads.
    pub output: TextureDesc,
}

/// The conversion for a desktop of the given size and rate.
pub open spec fn conversion(width: u32, height: u32, framerate: u32) -> Nv12Converter {
    Nv12Converter {
        width,
        height,
        rate_numerator: if framerate == 0 {
            1
        } else {
            framerate
        },
        rate_denominator: 1,
        input_color_space: INPUT_COLOR_SPACE,
        output_color_space: OUTPUT_COLOR_SPACE,
        output: TextureDesc {
            width,
            height,
            mip_levels: 1,
            array_size: 1,
            sample_count: 1,
            format: FORMAT_NV12,
            bind_flags: BIND_RENDER_TARGET,
            cpu_access_flags: 0,
        },
    }
}

impl Nv12Converter {
    /// The conversion for a desktop of the given size. A rate of zero counts as one
    /// image per second.
    pub fn new(width: u32, height: u32, framerate: u32) -> (c: Nv12Converter)
        ensures
            c == conversion(width, height, framerate),
    {
        let rate_numerator: u32 = if framerate == 0 {
            1
        } else {
            framerate
        };
        Nv12Converter {
            width,
            height,
            rate_numerator,
            rate_denominator: 1,
            input_color_space: INPUT_COLOR_SPACE,
            output_color_space: OUTPUT_COLOR_SPACE,
            output: TextureDesc {
                width,
                height,
                mip_levels: 1,
                array_size: 1,
                sample_count: 1,
                format: FORMAT_NV12,
                bind_flags: BIND_RENDER_TARGET,
                cpu_access_flags: 0,
            },
        }
    }

    /// The texture that the encoder reads.
    pub fn output(&self) -> (d: TextureDesc)
        ensures
            d == self.output,
    {
        self.output
    }
}

/// A conversion keeps the size and the rate: what the encoder reads is as large as the
/// desktop, has one plane of each kind, and is out of the processor's reach. Colours go
/// from full-range RGB to the studio range that browsers expect.
pub proof fn law_a_conversion_keeps_the_size(width: u32, height: u32, framerate: u32)
    ensures
        ({
            let c = conversion(width, height, framerate);
            &&& c.width == width && c.height == height
            &&& c.output.width == width && c.output.height == height
            &&& c.rate_denominator == 1
            &&& framerate > 0 ==> c.rate_numerator == framerate
            &&& framerate == 0 ==> c.rate_numerator == 1
            &&& c.input_color_space == 0 && c.output_color_space == 20
            &&& c.output.format == 103 && c.output.bind_flags == 0x20
            &&& c.output.mip_levels == 1 && c.output.array_size == 1 && c.output.sample_count == 1
            &&& c.output.cpu_access_flags == 0
        }),
{
}

} // verus!
