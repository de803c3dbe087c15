use vstd::prelude::*;
use vstd::string::StringExecFns;
use crate::camera_adapter::{
    decode_payload, CameraAdapter, DecodeError, FrameFormat, PayloadLayout, RequestedFormat,
};
use crate::temperature::{Temp, TempRange};
use crate::thermal_data::ThermalData;

verus! {

pub const IMAGE_WIDTH: u32 = 128;

pub const IMAGE_HEIGHT: u32 = 48;

pub const FRAME_RATE: u32 = 10;

/// The Infiray P2 Pro. Its stream carries a grey picture of the scene on
/// top and, in the lower half, the temperatures as values of two bytes in
/// sixty-fourths of a kelvin.
pub struct InfirayP2ProAdapter {}

impl CameraAdapter for InfirayP2ProAdapter {
    /// The temperatures start after the grey picture of two bytes a pixel.
    open spec fn layout(&self) -> PayloadLayout {
        PayloadLayout { offset: 12288, width: 128, height: 48 }
    }

    open spec fn spec_name(&self) -> Seq<char> {
        "Infiray P2 Pro"@
    }

    open spec fn spec_short_name(&self) -> Seq<char> {
        "P2Pro"@
    }

    open spec fn spec_usb_vid_pids(&self) -> Seq<(u16, u16)> {
        seq![(0xcafe_u16, 0x4020_u16)]
    }

    open spec fn spec_requested_format(&self) -> RequestedFormat {
        RequestedFormat { width: 128, height: 96, frame_format: FrameFormat::Yuyv, frame_rate: 10 }
    }

    /// From 253.15 to 873.15 kelvin.
    open spec fn spec_temperature_range(&self) -> TempRange {
        TempRange { min: Temp { units: 16202 }, max: Temp { units: 55882 } }
    }

    fn payload_layout(&self) -> (l: PayloadLayout) {
        proof {
            assert(128 * 48 == 6144) by (nonlinear_arith);
        }
        PayloadLayout { offset: 12288, width: 128, height: 48 }
    }

    fn name(&self) -> (s: String) {
        String::from_str("Infiray P2 Pro")
    }

    fn short_name(&self) -> (s: String) {
        String::from_str("P2Pro")
    }

    fn usb_vid_pids(&self) -> (ids: Vec<(u16, u16)>) {
        vec![(0xcafe, 0x4020)]
    }

    fn requested_format(&self) -> (f: RequestedFormat) {
        RequestedFormat {
            width: IMAGE_WIDTH,
            height: IMAGE_HEIGHT * 2,
            frame_format: FrameFormat::Yuyv,
            frame_rate: FRAME_RATE,
        }
    }

    fn temperature_range(&self) -> (r: TempRange) {
        TempRange::new(Temp::new(16202), Temp::new(55882))
    }

    fn capture_thermal_data(&self, frame: &[u8]) -> (r: Result<ThermalData, DecodeError>) {
        proof {
            assert(IMAGE_WIDTH * IMAGE_HEIGHT * 2 == 12288) by (nonlinear_arith)
                requires
                    IMAGE_WIDTH == 128,
                    IMAGE_HEIGHT == 48,
            ;
            assert(128 * 48 == 6144) by (nonlinear_arith);
        }
        decode_payload(
            frame,
            PayloadLayout {
                offset: (IMAGE_WIDTH * IMAGE_HEIGHT * 2) as usize,
                width: IMAGE_WIDTH as usize,
                height: IMAGE_HEIGHT as usize,
            },
        )
    }
}

} // verus!
