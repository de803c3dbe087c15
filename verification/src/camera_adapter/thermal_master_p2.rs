use vstd::prelude::*;
use vstd::string::StringExecFns;
use crate::camera_adapter::{
    decode_payload, CameraAdapter, DecodeError, FrameFormat, PayloadLayout, RequestedFormat,
};
use crate::temperature::{Temp, TempRange};
use crate::thermal_data::ThermalData;

verus! {

pub const IMAGE_WIDTH: u32 = 256;

pub const IMAGE_HEIGHT: u32 = 192;

/// Rows between the grey picture and the temperatures.
pub const OFFSET: u32 = 2;

pub const COMBINDED_IMAGE_HEIGHT: u32 = IMAGE_HEIGHT * 2 + OFFSET;

/// The Thermal Master P2. Its stream carries a grey picture of the scene on
/// top, two rows of other data, and then the temperatures as values of two
/// bytes in sixty-fourths of a kelvin.
pub struct ThermanlMasterP2ProAdapter {}

impl CameraAdapter for ThermanlMasterP2ProAdapter {
    /// The temperatures start after the grey picture and the two rows, of
    /// two bytes a pixel.
    open spec fn layout(&self) -> PayloadLayout {
        PayloadLayout { offset: 99328, width: 256, height: 192 }
    }

    open spec fn spec_name(&self) -> Seq<char> {
        "Thermal Master P2"@
    }

    open spec fn spec_short_name(&self) -> Seq<char> {
        "P2"@
    }

    open spec fn spec_usb_vid_pids(&self) -> Seq<(u16, u16)> {
        seq![(0x3474_u16, 0x4281_u16)]
    }

    open spec fn spec_requested_format(&self) -> RequestedFormat {
        RequestedFormat { width: 256, height: 386, frame_format: FrameFormat::Yuyv, frame_rate: 25 }
    }

    /// From 253.15 to 873.15 kelvin.
    open spec fn spec_temperature_range(&self) -> TempRange {
        TempRange { min: Temp { units: 16202 }, max: Temp { units: 55882 } }
    }

    fn payload_layout(&self) -> (l: PayloadLayout) {
        proof {
            assert(256 * 192 == 49152) by (nonlinear_arith);
        }
        PayloadLayout { offset: 99328, width: 256, height: 192 }
    }

    fn name(&self) -> (s: String) {
        String::from_str("Thermal Master P2")
    }

    fn short_name(&self) -> (s: String) {
        String::from_str("P2")
    }

    fn usb_vid_pids(&self) -> (ids: Vec<(u16, u16)>) {
        vec![(0x3474, 0x4281)]
    }

    fn requested_format(&self) -> (f: RequestedFormat) {
        RequestedFormat {
            width: IMAGE_WIDTH,
            height: COMBINDED_IMAGE_HEIGHT,
            frame_format: FrameFormat::Yuyv,
            frame_rate: 25,
        }
    }

    fn temperature_range(&self) -> (r: TempRange) {
        TempRange::new(Temp::new(16202), Temp::new(55882))
    }

    fn capture_thermal_data(&self, frame: &[u8]) -> (r: Result<ThermalData, DecodeError>) {
        proof {
            assert((IMAGE_WIDTH * (IMAGE_HEIGHT + OFFSET)) * 2 == 99328) by (nonlinear_arith)
                requires
                    IMAGE_WIDTH == 256,
                    IMAGE_HEIGHT == 192,
                    OFFSET == 2,
            ;
            assert(256 * 192 == 49152) by (nonlinear_arith);
        }
        decode_payload(
            frame,
            PayloadLayout {
                offset: ((IMAGE_WIDTH * (IMAGE_HEIGHT + OFFSET)) * 2) as usize,
                width: IMAGE_WIDTH as usize,
                height: IMAGE_HEIGHT as usize,
            },
        )
    }
}

} // verus!
