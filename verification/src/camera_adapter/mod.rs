use vstd::prelude::*;
use crate::temperature::{Temp, TempRange};
use crate::thermal_data::ThermalData;
use self::infiray_p2_pro::InfirayP2ProAdapter;
use self::thermal_master_p2::ThermanlMasterP2ProAdapter;

pub mod infiray_p2_pro;
pub mod thermal_master_p2;

verus! {

/// How the pixels of a stream are laid out in a frame buffer.
#[derive(Clone, Copy, Debug, PartialEq, Eq, Structural)]
pub enum FrameFormat {
    /// Two bytes a pixel: luma, and chroma shared by two pixels.
    Yuyv,
}

/// The stream that an adapter asks the camera for.
#[derive(Clone, Copy, Debug, PartialEq, Eq, Structural)]
pub struct RequestedFormat {
    pub width: u32,
    pub height: u32,
    pub frame_format: FrameFormat,
    pub frame_rate: u32,
}

/// Where the temperatures lie in the frame buffer of a camera model: after
/// `offset` bytes, `width * height` values of two bytes each.
#[derive(Clone, Copy, Debug, PartialEq, Eq, Structural)]
pub struct PayloadLayout {
    pub offset: usize,
    pub width: usize,
    pub height: usize,
}

impl PayloadLayout {
    /// The bytes a frame buffer must hold at least.
    pub open spec fn needed(self) -> int {
        self.offset + 2 * (self.width * self.height)
    }

    /// The bytes a frame buffer must hold can be counted.
    pub open spec fn wf(self) -> bool {
        self.needed() <= usize::MAX
    }
}

/// Why a frame buffer could not be decoded.
#[derive(Debug, PartialEq, Eq)]
pub enum DecodeError {
    /// The buffer holds `got` bytes where `needed` are needed.
    FrameTooShort { needed: usize, got: usize },
    /// The camera gave no frame; the words are those of the camera's driver.
    StreamRead { message: String },
}

/// The reading at place `i` of the payload that starts `offset` bytes into
/// `frame`: two bytes, the low one first.
pub open spec fn raw_reading(frame: Seq<u8>, offset: int, i: int) -> int {
    frame[offset + 2 * i] + 256 * frame[offset + 2 * i + 1]
}

/// `data` holds the readings of the payload of `frame`, each a temperature
/// in sixty-fourths of a kelvin, in the order and the size of the sensor.
pub open spec fn decodes(frame: Seq<u8>, layout: PayloadLayout, data: ThermalData) -> bool {
    &&& data.wf()
    &&& data.width == layout.width
    &&& data.height == layout.height
    &&& data.is_radiometric()
    &&& forall|i: int|
        0 <= i < layout.width * layout.height ==> (#[trigger] data.data@[i])@ == raw_reading(
            frame,
            layout.offset as int,
            i,
        )
}

/// Reads the temperatures out of one frame buffer. A buffer that holds more
/// than is needed is read as far as needed; one that holds less is refused.
pub fn decode_payload(frame: &[u8], layout: PayloadLayout) -> (r: Result<ThermalData, DecodeError>)
    requires
        layout.wf(),
    ensures
        match r {
            Ok(data) => frame@.len() >= layout.needed() && decodes(frame@, layout, data),
            Err(e) => frame@.len() < layout.needed() && e == (DecodeError::FrameTooShort {
                needed: layout.needed() as usize,
                got: frame@.len() as usize,
            }),
        },
{
    proof {
        assert(0 <= layout.width * layout.height) by (nonlinear_arith)
            requires
                0 <= layout.width,
                0 <= layout.height,
        ;
    }
    let count: usize = layout.width * layout.height;
    let needed: usize = layout.offset + 2 * count;
    let got: usize = frame.len();
    if got < needed {
        return Err(DecodeError::FrameTooShort { needed, got });
    }
    let mut data: Vec<Temp> = Vec::with_capacity(count);
    let mut i: usize = 0;
    while i < count
        invariant
            0 <= i <= count,
            forall|k: int| 0 <= k < i ==> 0 <= (#[trigger] data@[k])@ <= 0xffff,
            count == layout.width * layout.height,
            layout.offset + 2 * count <= got,
            got == frame@.len(),
            data@.len() == i,
            forall|k: int|
                0 <= k < i ==> (#[trigger] data@[k])@ == raw_reading(frame@, layout.offset as int, k),
        decreases count - i,
    {
        let low: u8 = frame[layout.offset + 2 * i];
        let high: u8 = frame[layout.offset + 2 * i + 1];
        data.push(Temp::new(low as i64 + 256 * (high as i64)));
        i += 1;
    }
    Ok(ThermalData { width: layout.width, height: layout.height, data })
}

/// What the pipeline needs to know of a camera model.
pub trait CameraAdapter {
    /// Where the temperatures lie in a frame buffer of this model.
    spec fn layout(&self) -> PayloadLayout;

    /// The name of the model as people write it.
    spec fn spec_name(&self) -> Seq<char>;

    /// A short name of the model that can stand in a file name.
    spec fn spec_short_name(&self) -> Seq<char>;

    /// The USB vendor and product numbers that this model goes by.
    spec fn spec_usb_vid_pids(&self) -> Seq<(u16, u16)>;

    /// The stream to ask the camera for.
    spec fn spec_requested_format(&self) -> RequestedFormat;

    /// The temperatures that the maker says the sensor can tell.
    spec fn spec_temperature_range(&self) -> TempRange;

    /// Where the temperatures lie in a frame buffer of this model.
    fn payload_layout(&self) -> (l: PayloadLayout)
        ensures
            l == self.layout(),
            l.wf(),
    ;

    fn name(&self) -> (s: String)
        ensures
            s@ == self.spec_name(),
    ;

    fn short_name(&self) -> (s: String)
        ensures
            s@ == self.spec_short_name(),
    ;

    fn usb_vid_pids(&self) -> (ids: Vec<(u16, u16)>)
        ensures
            ids@ == self.spec_usb_vid_pids(),
    ;

    fn requested_format(&self) -> (f: RequestedFormat)
        ensures
            f == self.spec_requested_format(),
    ;

    fn temperature_range(&self) -> (r: TempRange)
        ensures
            r == self.spec_temperature_range(),
    ;

    /// Reads the temperatures out of one frame buffer of the stream: all of
    /// them where the buffer holds enough bytes, and none where it does not.
    fn capture_thermal_data(&self, frame: &[u8]) -> (r: Result<ThermalData, DecodeError>)
        ensures
            self.layout().wf(),
            match r {
                Ok(data) => frame@.len() >= self.layout().needed() && decodes(
                    frame@,
                    self.layout(),
                    data,
                ),
                Err(e) => frame@.len() < self.layout().needed() && e == (
                DecodeError::FrameTooShort {
                    needed: self.layout().needed() as usize,
                    got: frame@.len() as usize,
                }),
            },
    ;
}

/// What came of reading one frame from the stream and decoding it: the
/// temperatures, where a frame was read that holds enough bytes; the words of
/// the driver where none was read; and what is missing where the frame is short.
pub open spec fn capture_outcome(
    layout: PayloadLayout,
    frame: Result<&[u8], String>,
    r: Result<ThermalData, DecodeError>,
) -> bool {
    match frame {
        Err(message) => r == Err::<ThermalData, DecodeError>(DecodeError::StreamRead { message }),
        Ok(bytes) => match r {
            Ok(data) => bytes@.len() >= layout.needed() && decodes(bytes@, layout, data),
            Err(e) => bytes@.len() < layout.needed() && e == (DecodeError::FrameTooShort {
                needed: layout.needed() as usize,
                got: bytes@.len() as usize,
            }),
        },
    }
}

/// Makes temperatures of what came of reading one frame from the stream:
/// the frame is decoded where there is one, and the failure to read is
/// passed on where there is none.
pub fn capture_from<A: CameraAdapter>(adapter: &A, frame: Result<&[u8], String>) -> (r: Result<
    ThermalData,
    DecodeError,
>)
    ensures
        capture_outcome(adapter.layout(), frame, r),
{
    match frame {
        Ok(bytes) => adapter.capture_thermal_data(bytes),
        Err(message) => Err(DecodeError::StreamRead { message }),
    }
}

/// The camera models that there is an adapter for, in the order in which
/// a camera is held against them.
#[derive(Clone, Copy, Debug, PartialEq, Eq, Structural)]
pub enum KnownCamera {
    InfirayP2Pro,
    ThermalMasterP2,
}

impl KnownCamera {
    /// The model that a camera with the given USB vendor and product
    /// numbers is, if there is an adapter for it.
    pub open spec fn spec_for_usb_ids(vendor: u16, product: u16) -> Option<KnownCamera> {
        if KnownCamera::InfirayP2Pro.spec_usb_vid_pids().contains((vendor, product)) {
            Some(KnownCamera::InfirayP2Pro)
        } else if KnownCamera::ThermalMasterP2.spec_usb_vid_pids().contains((vendor, product)) {
            Some(KnownCamera::ThermalMasterP2)
        } else {
            None
        }
    }

    /// The first known model that goes by the given USB vendor and product
    /// numbers, if there is one.
    pub fn for_usb_ids(vendor: u16, product: u16) -> (r: Option<KnownCamera>)
        ensures
            r == KnownCamera::spec_for_usb_ids(vendor, product),
    {
        proof {
            let a = KnownCamera::InfirayP2Pro.spec_usb_vid_pids();
            let b = KnownCamera::ThermalMasterP2.spec_usb_vid_pids();
            assert(a[0] == (0xcafe_u16, 0x4020_u16));
            assert(b[0] == (0x3474_u16, 0x4281_u16));
        }
        if vendor == 0xcafe && product == 0x4020 {
            Some(KnownCamera::InfirayP2Pro)
        } else if vendor == 0x3474 && product == 0x4281 {
            Some(KnownCamera::ThermalMasterP2)
        } else {
            None
        }
    }
}

impl CameraAdapter for KnownCamera {
    open spec fn layout(&self) -> PayloadLayout {
        match self {
            KnownCamera::InfirayP2Pro => (InfirayP2ProAdapter {  }).layout(),
            KnownCamera::ThermalMasterP2 => (ThermanlMasterP2ProAdapter {  }).layout(),
        }
    }

    open spec fn spec_name(&self) -> Seq<char> {
        match self {
            KnownCamera::InfirayP2Pro => (InfirayP2ProAdapter {  }).spec_name(),
            KnownCamera::ThermalMasterP2 => (ThermanlMasterP2ProAdapter {  }).spec_name(),
        }
    }

    open spec fn spec_short_name(&self) -> Seq<char> {
        match self {
            KnownCamera::InfirayP2Pro => (InfirayP2ProAdapter {  }).spec_short_name(),
            KnownCamera::ThermalMasterP2 => (ThermanlMasterP2ProAdapter {  }).spec_short_name(),
        }
    }

    open spec fn spec_usb_vid_pids(&self) -> Seq<(u16, u16)> {
        match self {
            KnownCamera::InfirayP2Pro => (InfirayP2ProAdapter {  }).spec_usb_vid_pids(),
            KnownCamera::ThermalMasterP2 => (ThermanlMasterP2ProAdapter {  }).spec_usb_vid_pids(),
        }
    }

    open spec fn spec_requested_format(&self) -> RequestedFormat {
        match self {
            KnownCamera::InfirayP2Pro => (InfirayP2ProAdapter {  }).spec_requested_format(),
            KnownCamera::ThermalMasterP2 => (ThermanlMasterP2ProAdapter {  }).spec_requested_format(),
        }
    }

    open spec fn spec_temperature_range(&self) -> TempRange {
        match self {
            KnownCamera::InfirayP2Pro => (InfirayP2ProAdapter {  }).spec_temperature_range(),
            KnownCamera::ThermalMasterP2 => (ThermanlMasterP2ProAdapter {  }).spec_temperature_range(),
        }
    }

    fn payload_layout(&self) -> (l: PayloadLayout) {
        match self {
            KnownCamera::InfirayP2Pro => (InfirayP2ProAdapter {  }).payload_layout(),
            KnownCamera::ThermalMasterP2 => (ThermanlMasterP2ProAdapter {  }).payload_layout(),
        }
    }

    fn name(&self) -> (s: String) {
        match self {
            KnownCamera::InfirayP2Pro => (InfirayP2ProAdapter {  }).name(),
            KnownCamera::ThermalMasterP2 => (ThermanlMasterP2ProAdapter {  }).name(),
        }
    }

    fn short_name(&self) -> (s: String) {
        match self {
            KnownCamera::InfirayP2Pro => (InfirayP2ProAdapter {  }).short_name(),
            KnownCamera::ThermalMasterP2 => (ThermanlMasterP2ProAdapter {  }).short_name(),
        }
    }

    fn usb_vid_pids(&self) -> (ids: Vec<(u16, u16)>) {
        match self {
            KnownCamera::InfirayP2Pro => (InfirayP2ProAdapter {  }).usb_vid_pids(),
            KnownCamera::ThermalMasterP2 => (ThermanlMasterP2ProAdapter {  }).usb_vid_pids(),
        }
    }

    fn requested_format(&self) -> (f: RequestedFormat) {
        match self {
            KnownCamera::InfirayP2Pro => (InfirayP2ProAdapter {  }).requested_format(),
            KnownCamera::ThermalMasterP2 => (ThermanlMasterP2ProAdapter {  }).requested_format(),
        }
    }

    fn temperature_range(&self) -> (r: TempRange) {
        match self {
            KnownCamera::InfirayP2Pro => (InfirayP2ProAdapter {  }).temperature_range(),
            KnownCamera::ThermalMasterP2 => (ThermanlMasterP2ProAdapter {  }).temperature_range(),
        }
    }

    fn capture_thermal_data(&self, frame: &[u8]) -> (r: Result<ThermalData, DecodeError>) {
        match self {
            KnownCamera::InfirayP2Pro => (InfirayP2ProAdapter {  }).capture_thermal_data(frame),
            KnownCamera::ThermalMasterP2 => (ThermanlMasterP2ProAdapter {  }).capture_thermal_data(
                frame,
            ),
        }
    }
}

} // verus!
