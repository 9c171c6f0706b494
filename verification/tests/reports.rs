use padlink::bytes::{get_array, get_le_i16, get_le_u32, put_bytes, put_le_i16, put_le_u32};
use padlink::checksum::calculate_bt_crc32;
use padlink::error::Error;
use padlink::sony_reports::{
    CommonButtons, Ds4BtOutput, Ds4OutputPayload, Ds4UsbOutput, DualSenseBtOutput,
    DualSenseOutputPayload, DualSenseUsbOutput, ImuData, TouchPoint,
};
use zerocopy::byteorder::little_endian::{I16, U32};

/// A cyclic redundancy check bit by bit, from a register of all ones.
fn bitwise_crc32(data: &[u8]) -> u32 {
    let mut register: u32 = 0xffffffff;
    for byte in data {
        register ^= *byte as u32;
        for _ in 0..8 {
            let bit = register & 1;
            register >>= 1;
            if bit == 1 {
                register ^= 0xedb88320;
            }
        }
    }
    register ^ 0xffffffff
}

fn ramp(len: usize) -> Vec<u8> {
    (0..len).map(|i| (i * 37 + 11) as u8).collect()
}

#[test]
fn test_report_sizes() {
    let report = Ds4UsbOutput::new();
    let bytes = report.as_bytes();
    assert_eq!(bytes.len(), 32);
    let report = Ds4BtOutput::new();
    let bytes = report.as_bytes();
    assert_eq!(bytes.len(), 78, "DS4BtOutput length is incorrect");
    let report = DualSenseUsbOutput::new();
    let bytes = report.as_bytes();
    assert_eq!(bytes.len(), 48);
    let report = DualSenseBtOutput::new();
    let bytes = report.as_bytes();
    assert_eq!(bytes.len(), 78, "DualSenseBtOutput length is incorrect");
}

#[test]
fn checksum_of_given_bytes() {
    assert_eq!(calculate_bt_crc32(&[]), 0xeada2d49);
    assert_eq!(calculate_bt_crc32(b"123456789"), 0x63da9f12);
}

#[test]
fn checksum_is_that_of_the_bytes_behind_their_header() {
    for len in 0..700 {
        let data = ramp(len);
        let mut all = vec![0xa2u8];
        all.extend_from_slice(&data);
        assert_eq!(calculate_bt_crc32(&data), bitwise_crc32(&all), "{len} bytes");
    }
}

#[test]
fn checksum_of_unaligned_bytes() {
    let all = ramp(400);
    for start in 0..40 {
        let data = &all[start..];
        let mut behind = vec![0xa2u8];
        behind.extend_from_slice(data);
        assert_eq!(calculate_bt_crc32(data), bitwise_crc32(&behind));
    }
}

#[test]
fn checksum_detects_every_changed_byte() {
    let data = ramp(74);
    let checksum = calculate_bt_crc32(&data);
    for at in 0..data.len() {
        for change in 1..=255u8 {
            let mut changed = data.clone();
            changed[at] ^= change;
            assert_ne!(calculate_bt_crc32(&changed), checksum);
        }
    }
}

#[test]
fn initial_ds4_usb_report() {
    let mut expected = vec![0u8; 32];
    expected[0] = 0x05;
    expected[1] = 0x1f;
    assert_eq!(Ds4UsbOutput::new().as_bytes(), expected);
}

#[test]
fn initial_dualsense_usb_report() {
    let mut expected = vec![0u8; 48];
    expected[0] = 0x02;
    expected[1] = 0x07;
    expected[2] = 0x1f;
    assert_eq!(DualSenseUsbOutput::new().as_bytes(), expected);
}

#[test]
fn initial_ds4_bt_report_and_its_checksum() {
    let mut expected = vec![0u8; 78];
    expected[0] = 0x11;
    expected[1] = 0x80;
    expected[3] = 0x1f;
    let mut report = Ds4BtOutput::new();
    assert_eq!(report.as_bytes(), expected);
    report.add_crc();
    assert_eq!(report.crc, 0xd324d5d4);
    expected[74..].copy_from_slice(&[0xd4, 0xd5, 0x24, 0xd3]);
    assert_eq!(report.as_bytes(), expected);
    report.add_crc();
    assert_eq!(report.as_bytes(), expected);
}

#[test]
fn initial_dualsense_bt_report_and_its_checksum() {
    let mut expected = vec![0u8; 78];
    expected[0] = 0x31;
    expected[1] = 0x02;
    expected[2] = 0x07;
    expected[3] = 0x1f;
    let mut report = DualSenseBtOutput::new();
    assert_eq!(report.as_bytes(), expected);
    report.add_crc();
    assert_eq!(report.crc, 0xc9873d1c);
    expected[74..].copy_from_slice(&[0x1c, 0x3d, 0x87, 0xc9]);
    assert_eq!(report.as_bytes(), expected);
    report.add_crc();
    assert_eq!(report.as_bytes(), expected);
}

#[test]
fn payload_fields_stand_where_the_controller_expects_them() {
    let mut payload = Ds4OutputPayload::new();
    payload.motor_right = 1;
    payload.motor_left = 2;
    payload.led_red = 3;
    payload.led_green = 4;
    payload.led_blue = 5;
    payload.flash_on = 6;
    payload.flash_off = 7;
    payload.vol_speaker = 8;
    payload.audio_mute_flags = 9;
    let bytes = payload.as_bytes();
    assert_eq!(&bytes[..10], &[0x1f, 0, 0, 1, 2, 3, 4, 5, 6, 7]);
    assert_eq!(&bytes[18..22], &[8, 0, 0, 9]);

    let mut payload = DualSenseOutputPayload::new();
    payload.trigger_l2_mode = 1;
    payload.trigger_l2_params = [2; 9];
    payload.trigger_r2_mode = 3;
    payload.trigger_r2_params = [4; 9];
    payload.motor_flags = 5;
    payload.player_leds = 6;
    payload.led_red = 7;
    payload.led_green = 8;
    payload.led_blue = 9;
    let bytes = payload.as_bytes();
    assert_eq!(&bytes[10..21], &[1, 2, 2, 2, 2, 2, 2, 2, 2, 2, 3]);
    assert_eq!(&bytes[21..30], &[4; 9]);
    assert_eq!(&bytes[30..42], &[0; 12]);
    assert_eq!(&bytes[42..], &[5, 6, 7, 8, 9]);
}

#[test]
fn defaults_are_zero() {
    assert_eq!(CommonButtons::default().as_bytes(), vec![0; 3]);
    assert_eq!(ImuData::default().as_bytes(), vec![0; 12]);
    assert_eq!(TouchPoint::default().as_bytes(), vec![0; 4]);
    assert_eq!(Ds4OutputPayload::default().as_bytes(), vec![0; 31]);
    assert_eq!(DualSenseOutputPayload::default().as_bytes(), vec![0; 47]);
}

#[test]
fn reading_gives_back_what_was_written() {
    assert_eq!(CommonButtons::read_from_bytes(&ramp(3)).unwrap().as_bytes(), ramp(3));
    assert_eq!(ImuData::read_from_bytes(&ramp(12)).unwrap().as_bytes(), ramp(12));
    assert_eq!(TouchPoint::read_from_bytes(&ramp(4)).unwrap().as_bytes(), ramp(4));
    assert_eq!(Ds4OutputPayload::read_from_bytes(&ramp(31)).unwrap().as_bytes(), ramp(31));
    assert_eq!(Ds4BtOutput::read_from_bytes(&ramp(78)).unwrap().as_bytes(), ramp(78));
    assert_eq!(Ds4UsbOutput::read_from_bytes(&ramp(32)).unwrap().as_bytes(), ramp(32));
    assert_eq!(DualSenseOutputPayload::read_from_bytes(&ramp(47)).unwrap().as_bytes(), ramp(47));
    assert_eq!(DualSenseBtOutput::read_from_bytes(&ramp(78)).unwrap().as_bytes(), ramp(78));
    assert_eq!(DualSenseUsbOutput::read_from_bytes(&ramp(48)).unwrap().as_bytes(), ramp(48));
}

#[test]
fn bytes_of_another_length_are_not_read() {
    assert!(matches!(CommonButtons::read_from_bytes(&ramp(2)), Err(Error::Response)));
    assert!(matches!(ImuData::read_from_bytes(&ramp(13)), Err(Error::Response)));
    assert!(matches!(TouchPoint::read_from_bytes(&[]), Err(Error::Response)));
    assert!(matches!(Ds4OutputPayload::read_from_bytes(&ramp(30)), Err(Error::Response)));
    assert!(matches!(Ds4BtOutput::read_from_bytes(&ramp(77)), Err(Error::Response)));
    assert!(matches!(Ds4UsbOutput::read_from_bytes(&ramp(33)), Err(Error::Response)));
    assert!(matches!(DualSenseOutputPayload::read_from_bytes(&ramp(48)), Err(Error::Response)));
    assert!(matches!(DualSenseBtOutput::read_from_bytes(&ramp(79)), Err(Error::Response)));
    assert!(matches!(DualSenseUsbOutput::read_from_bytes(&ramp(47)), Err(Error::Response)));
}

#[test]
fn a_read_checksum_can_be_checked() {
    let mut report = DualSenseBtOutput::new();
    report.payload.led_red = 255;
    report.add_crc();
    let read = DualSenseBtOutput::read_from_bytes(&report.as_bytes()).unwrap();
    assert_eq!(read.crc, 0x5a409d17);
    assert_eq!(read.payload.led_red, 255);
    assert_eq!(read.crc, calculate_bt_crc32(&read.as_bytes()[..74]));
}

#[test]
fn motion_readings_are_little_endian_and_signed() {
    let data = ImuData {
        gyro_x: 1,
        gyro_y: -1,
        gyro_z: i16::MIN,
        accel_x: i16::MAX,
        accel_y: 0x0102,
        accel_z: -256,
    };
    let bytes = data.as_bytes();
    assert_eq!(bytes, vec![1, 0, 0xff, 0xff, 0, 0x80, 0xff, 0x7f, 2, 1, 0, 0xff]);
    let read = ImuData::read_from_bytes(&bytes).unwrap();
    assert_eq!(read.gyro_z, i16::MIN);
    assert_eq!(read.accel_z, -256);
}

#[test]
fn integers_are_laid_out_as_zerocopy_lays_them_out() {
    for x in [0u32, 1, 0xff, 0x100, 0x12345678, 0x1525d2b6, u32::MAX] {
        let mut out = Vec::new();
        put_le_u32(&mut out, x);
        assert_eq!(out, U32::new(x).to_bytes());
        assert_eq!(get_le_u32(&out, 0), x);
    }
    for x in [0i16, 1, -1, 0x1234, -0x1234, i16::MIN, i16::MAX] {
        let mut out = vec![7];
        put_le_i16(&mut out, x);
        assert_eq!(out[1..], I16::new(x).to_bytes());
        assert_eq!(get_le_i16(&out, 1), x);
    }
}

#[test]
fn fields_are_cut_out_of_a_buffer() {
    let mut out = vec![9];
    put_bytes(&mut out, &[1, 2, 3, 4]);
    assert_eq!(out, vec![9, 1, 2, 3, 4]);
    assert_eq!(get_array::<3>(&out, 1), [1, 2, 3]);
    assert_eq!(get_array::<0>(&out, 5), []);
}
