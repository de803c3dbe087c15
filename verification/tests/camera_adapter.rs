use thermal_viewer::camera_adapter::infiray_p2_pro::InfirayP2ProAdapter;
use thermal_viewer::camera_adapter::thermal_master_p2::ThermanlMasterP2ProAdapter;
use thermal_viewer::camera_adapter::{
    decode_payload, CameraAdapter, DecodeError, FrameFormat, KnownCamera, PayloadLayout,
    RequestedFormat,
};
use thermal_viewer::temperature::{Temp, TemperatureUnit};

fn frame_with(offset: usize, readings: &[u16], tail: usize) -> Vec<u8> {
    let mut frame = vec![0xAAu8; offset];
    for r in readings {
        frame.push((r & 0xff) as u8);
        frame.push((r >> 8) as u8);
    }
    frame.extend(std::iter::repeat(0x55u8).take(tail));
    frame
}

#[test]
fn a_four_by_four_payload_decodes_to_exact_kelvin_values() {
    let readings: Vec<u16> = (0..16).map(|i| 17480 + 64 * i).collect();
    let layout = PayloadLayout { offset: 32, width: 4, height: 4 };
    let frame = frame_with(32, &readings, 0);
    let data = decode_payload(&frame, layout).unwrap();
    assert_eq!((data.width, data.height), (4, 4));
    for (i, t) in data.data.iter().enumerate() {
        assert_eq!(t.units, 17480 + 64 * i as i64);
        assert_eq!(t.units as f64 / 64.0, 273.125 + i as f64);
        assert_eq!(t.to_unit(TemperatureUnit::Kelvin), 273_125 + 1000 * i as i64);
    }
    assert_eq!(data.temperature_at(1, 2), Temp::new(17480 + 64 * 9));
}

#[test]
fn readings_are_two_bytes_with_the_low_byte_first() {
    let layout = PayloadLayout { offset: 3, width: 2, height: 1 };
    let frame = vec![9, 9, 9, 0x34, 0x12, 0xff, 0xff];
    let data = decode_payload(&frame, layout).unwrap();
    assert_eq!(data.data, vec![Temp::new(0x1234), Temp::new(0xffff)]);
}

#[test]
fn bytes_after_the_payload_are_left_unread() {
    let layout = PayloadLayout { offset: 2, width: 1, height: 2 };
    let frame = frame_with(2, &[100, 200], 7);
    let data = decode_payload(&frame, layout).unwrap();
    assert_eq!(data.data, vec![Temp::new(100), Temp::new(200)]);
}

#[test]
fn a_short_frame_is_refused() {
    let layout = PayloadLayout { offset: 32, width: 4, height: 4 };
    let readings: Vec<u16> = (0..16).collect();
    let mut frame = frame_with(32, &readings, 0);
    frame.pop();
    assert_eq!(
        decode_payload(&frame, layout),
        Err(DecodeError::FrameTooShort { needed: 64, got: 63 })
    );
    assert_eq!(
        decode_payload(&[], layout),
        Err(DecodeError::FrameTooShort { needed: 64, got: 0 })
    );
}

#[test]
fn an_empty_payload_needs_the_bytes_before_it_only() {
    let layout = PayloadLayout { offset: 5, width: 0, height: 9 };
    let data = decode_payload(&[0u8; 5], layout).unwrap();
    assert_eq!((data.width, data.height), (0, 9));
    assert!(data.data.is_empty());
    assert_eq!(
        decode_payload(&[0u8; 4], layout),
        Err(DecodeError::FrameTooShort { needed: 5, got: 4 })
    );
}

#[test]
fn infiray_frames_hold_the_temperatures_in_the_lower_half() {
    let adapter = InfirayP2ProAdapter {};
    let readings: Vec<u16> = (0..128 * 48).map(|i| (i % 60000) as u16).collect();
    let frame = frame_with(128 * 48 * 2, &readings, 0);
    assert_eq!(frame.len(), 128 * 96 * 2);
    let data = adapter.capture_thermal_data(&frame).unwrap();
    assert_eq!((data.width, data.height), (128, 48));
    assert_eq!(data.temperature_at(0, 0), Temp::new(0));
    assert_eq!(data.temperature_at(5, 1), Temp::new(133));
    assert_eq!(data.temperature_at(127, 47), Temp::new(128 * 48 - 1));
    assert_eq!(
        adapter.capture_thermal_data(&frame[..frame.len() - 1]),
        Err(DecodeError::FrameTooShort { needed: 24576, got: 24575 })
    );
}

#[test]
fn thermal_master_frames_hold_the_temperatures_behind_two_more_rows() {
    let adapter = ThermanlMasterP2ProAdapter {};
    let readings: Vec<u16> = (0..256 * 192).map(|i| (i % 65536) as u16).collect();
    let frame = frame_with(256 * 194 * 2, &readings, 0);
    assert_eq!(frame.len(), 256 * 386 * 2);
    let data = adapter.capture_thermal_data(&frame).unwrap();
    assert_eq!((data.width, data.height), (256, 192));
    assert_eq!(data.temperature_at(0, 0), Temp::new(0));
    assert_eq!(data.temperature_at(255, 191), Temp::new(256 * 192 - 1));
    assert_eq!(
        adapter.capture_thermal_data(&frame[..1000]),
        Err(DecodeError::FrameTooShort { needed: 197632, got: 1000 })
    );
}

#[test]
fn adapters_describe_their_cameras() {
    let infiray = InfirayP2ProAdapter {};
    assert_eq!(infiray.name(), "Infiray P2 Pro");
    assert_eq!(infiray.short_name(), "P2Pro");
    assert_eq!(infiray.usb_vid_pids(), vec![(0xcafe, 0x4020)]);
    assert_eq!(
        infiray.requested_format(),
        RequestedFormat { width: 128, height: 96, frame_format: FrameFormat::Yuyv, frame_rate: 10 }
    );
    let master = ThermanlMasterP2ProAdapter {};
    assert_eq!(master.name(), "Thermal Master P2");
    assert_eq!(master.short_name(), "P2");
    assert_eq!(master.usb_vid_pids(), vec![(0x3474, 0x4281)]);
    assert_eq!(
        master.requested_format(),
        RequestedFormat { width: 256, height: 386, frame_format: FrameFormat::Yuyv, frame_rate: 25 }
    );
    for range in [infiray.temperature_range(), master.temperature_range()] {
        assert_eq!(range.min, Temp::from_unit(TemperatureUnit::Kelvin, 253_150));
        assert_eq!(range.max, Temp::from_unit(TemperatureUnit::Kelvin, 873_150));
    }
}

#[test]
fn cameras_are_known_by_their_usb_numbers() {
    assert_eq!(KnownCamera::for_usb_ids(0xcafe, 0x4020), Some(KnownCamera::InfirayP2Pro));
    assert_eq!(KnownCamera::for_usb_ids(0x3474, 0x4281), Some(KnownCamera::ThermalMasterP2));
    assert_eq!(KnownCamera::for_usb_ids(0x3474, 0x4020), None);
    assert_eq!(KnownCamera::for_usb_ids(0, 0), None);
    let camera = KnownCamera::ThermalMasterP2;
    assert_eq!(camera.name(), "Thermal Master P2");
    assert_eq!(camera.usb_vid_pids(), vec![(0x3474, 0x4281)]);
    assert_eq!(
        KnownCamera::InfirayP2Pro.capture_thermal_data(&[1, 2, 3]),
        Err(DecodeError::FrameTooShort { needed: 24576, got: 3 })
    );
}
