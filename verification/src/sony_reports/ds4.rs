//! Output reports of the DualShock 4.

use vstd::prelude::*;
use vstd::slice::slice_subrange;

use super::CHECKSUM_SIZE;
use crate::bytes;
use crate::checksum;
use crate::error::{Error, Result};

verus! {

/// The number of bytes of a `Ds4OutputPayload`.
pub const DS4_OUTPUT_PAYLOAD_SIZE: usize = 31;

/// What a DualShock 4 is told to do, whichever way the report travels.
#[derive(Debug)]
pub struct Ds4OutputPayload {
    pub flag_0: u8,
    pub flag_1: u8,
    pub reserved_0: u8,
    pub motor_right: u8,
    pub motor_left: u8,
    pub led_red: u8,
    pub led_green: u8,
    pub led_blue: u8,
    pub flash_on: u8,
    pub flash_off: u8,
    pub reserved_1: [u8; 8],
    pub vol_speaker: u8,
    pub vol_mic: u8,
    pub vol_headphone: u8,
    pub audio_mute_flags: u8,
    pub reserved_2: [u8; 9],
}

impl View for Ds4OutputPayload {
    type V = Seq<u8>;

    /// The bytes, in the order in which they travel.
    open spec fn view(&self) -> Seq<u8> {
        seq![
            self.flag_0,
            self.flag_1,
            self.reserved_0,
            self.motor_right,
            self.motor_left,
            self.led_red,
            self.led_green,
            self.led_blue,
            self.flash_on,
            self.flash_off,
        ]
            + self.reserved_1@
            + seq![self.vol_speaker, self.vol_mic, self.vol_headphone, self.audio_mute_flags]
            + self.reserved_2@
    }
}

impl Default for Ds4OutputPayload {
    fn default() -> (zeroed: Self)
        ensures
            zeroed == Ds4OutputPayload::zeroed(),
    {
        Ds4OutputPayload {
            flag_0: 0,
            flag_1: 0,
            reserved_0: 0,
            motor_right: 0,
            motor_left: 0,
            led_red: 0,
            led_green: 0,
            led_blue: 0,
            flash_on: 0,
            flash_off: 0,
            reserved_1: [0u8; 8],
            vol_speaker: 0,
            vol_mic: 0,
            vol_headphone: 0,
            audio_mute_flags: 0,
            reserved_2: [0u8; 9],
        }
    }
}

impl Ds4OutputPayload {
    /// The value whose bytes are all zero.
    pub open spec fn zeroed() -> Self {
        Ds4OutputPayload {
            flag_0: 0,
            flag_1: 0,
            reserved_0: 0,
            motor_right: 0,
            motor_left: 0,
            led_red: 0,
            led_green: 0,
            led_blue: 0,
            flash_on: 0,
            flash_off: 0,
            reserved_1: bytes::zeros::<8>(),
            vol_speaker: 0,
            vol_mic: 0,
            vol_headphone: 0,
            audio_mute_flags: 0,
            reserved_2: bytes::zeros::<9>(),
        }
    }

    /// Rumble, light bar and volume are enabled, and all set to zero.
    pub open spec fn initial() -> Self {
        Ds4OutputPayload { flag_0: 0x1F, ..Self::zeroed() }
    }

    /// Rumble, light bar and volume are enabled, and all set to zero.
    pub fn new() -> (payload: Self)
        ensures
            payload == Self::initial(),
    {
        Self { flag_0: 0x1F, ..Default::default() }
    }

    /// The bytes of the value, in the order in which they travel.
    pub fn as_bytes(&self) -> (bytes: Vec<u8>)
        ensures
            bytes@ == self@,
            bytes@.len() == DS4_OUTPUT_PAYLOAD_SIZE,
    {
        let mut bytes: Vec<u8> = Vec::new();
        bytes.push(self.flag_0);
        bytes.push(self.flag_1);
        bytes.push(self.reserved_0);
        bytes.push(self.motor_right);
        bytes.push(self.motor_left);
        bytes.push(self.led_red);
        bytes.push(self.led_green);
        bytes.push(self.led_blue);
        bytes.push(self.flash_on);
        bytes.push(self.flash_off);
        bytes::put_bytes(&mut bytes, &self.reserved_1);
        bytes.push(self.vol_speaker);
        bytes.push(self.vol_mic);
        bytes.push(self.vol_headphone);
        bytes.push(self.audio_mute_flags);
        bytes::put_bytes(&mut bytes, &self.reserved_2);
        assert(bytes@ =~= self@);
        bytes
    }

    /// The value with these bytes. Any bytes of the right number are those of one
    /// value, and reading the bytes of a value gives that value back.
    pub fn read_from_bytes(source: &[u8]) -> (value: Result<Self>)
        ensures
            match value {
                Ok(v) => source@.len() == DS4_OUTPUT_PAYLOAD_SIZE && v@ == source@,
                Err(e) => e == Error::Response && source@.len() != DS4_OUTPUT_PAYLOAD_SIZE,
            },
            forall|v: Self| #[trigger] v@ == source@ ==> value == Ok::<Self, Error>(v),
    {
        if source.len() != DS4_OUTPUT_PAYLOAD_SIZE {
            assert forall|v: Self| #[trigger] v@ == source@ implies false by {
                Self::view_len(v);
            }
            return Err(Error::Response);
        }
        let value = Ds4OutputPayload {
            flag_0: source[0],
            flag_1: source[1],
            reserved_0: source[2],
            motor_right: source[3],
            motor_left: source[4],
            led_red: source[5],
            led_green: source[6],
            led_blue: source[7],
            flash_on: source[8],
            flash_off: source[9],
            reserved_1: bytes::get_array::<8>(source, 10),
            vol_speaker: source[18],
            vol_mic: source[19],
            vol_headphone: source[20],
            audio_mute_flags: source[21],
            reserved_2: bytes::get_array::<9>(source, 22),
        };
        assert(value@ =~= source@);
        assert forall|v: Self| #[trigger] v@ == source@ implies v == value by {
            Self::view_injective(v, value);
        }
        Ok(value)
    }

    /// Where each field stands among the bytes, and that there are no others.
    pub proof fn field_positions(value: Self)
        ensures
            value@.len() == 31,
            value@[0] == value.flag_0,
            value@[1] == value.flag_1,
            value@[2] == value.reserved_0,
            value@[3] == value.motor_right,
            value@[4] == value.motor_left,
            value@[5] == value.led_red,
            value@[6] == value.led_green,
            value@[7] == value.led_blue,
            value@[8] == value.flash_on,
            value@[9] == value.flash_off,
            forall|i: int| 0 <= i < 8 ==> value@[10 + i] == #[trigger] value.reserved_1@[i],
            value@[18] == value.vol_speaker,
            value@[19] == value.vol_mic,
            value@[20] == value.vol_headphone,
            value@[21] == value.audio_mute_flags,
            forall|i: int| 0 <= i < 9 ==> value@[22 + i] == #[trigger] value.reserved_2@[i],
    {
    }

    /// Every byte of the zeroed value is zero.
    pub proof fn zeroed_bytes(i: int)
        requires
            0 <= i < 31,
        ensures
            Self::zeroed()@[i] == 0,
    {
    }

    /// Each byte of the initial value.
    pub proof fn initial_bytes(i: int)
        requires
            0 <= i < 31,
        ensures
            Self::initial()@[i] == (if i == 0 {
                0x1Fu8
            } else {
                0u8
            }),
    {
    }

    /// Every value takes the same number of bytes.
    pub proof fn view_len(value: Self)
        ensures
            value@.len() == DS4_OUTPUT_PAYLOAD_SIZE,
    {
    }

    /// Two values with the same bytes are the same value.
    pub proof fn view_injective(x: Self, y: Self)
        requires
            x@ == y@,
        ensures
            x == y,
    {
        assert(x.flag_0 == x@[0] && y.flag_0 == y@[0]);
        assert(x.flag_1 == x@[1] && y.flag_1 == y@[1]);
        assert(x.reserved_0 == x@[2] && y.reserved_0 == y@[2]);
        assert(x.motor_right == x@[3] && y.motor_right == y@[3]);
        assert(x.motor_left == x@[4] && y.motor_left == y@[4]);
        assert(x.led_red == x@[5] && y.led_red == y@[5]);
        assert(x.led_green == x@[6] && y.led_green == y@[6]);
        assert(x.led_blue == x@[7] && y.led_blue == y@[7]);
        assert(x.flash_on == x@[8] && y.flash_on == y@[8]);
        assert(x.flash_off == x@[9] && y.flash_off == y@[9]);
        assert(x.reserved_1@ =~= x@.subrange(10, 18));
        assert(y.reserved_1@ =~= y@.subrange(10, 18));
        assert(x.reserved_1 =~= y.reserved_1);
        assert(x.vol_speaker == x@[18] && y.vol_speaker == y@[18]);
        assert(x.vol_mic == x@[19] && y.vol_mic == y@[19]);
        assert(x.vol_headphone == x@[20] && y.vol_headphone == y@[20]);
        assert(x.audio_mute_flags == x@[21] && y.audio_mute_flags == y@[21]);
        assert(x.reserved_2@ =~= x@.subrange(22, 31));
        assert(y.reserved_2@ =~= y@.subrange(22, 31));
        assert(x.reserved_2 =~= y.reserved_2);
    }
}

/// The number of bytes of a `Ds4BtOutput`.
pub const DS4_BT_OUTPUT_SIZE: usize = 78;

/// The Bluetooth output report of a DualShock 4.
#[derive(Debug)]
pub struct Ds4BtOutput {
    pub report_id: u8,
    pub hw_control: u8,
    pub report_tag: u8,
    pub payload: Ds4OutputPayload,
    pub padding: [u8; 40],
    pub crc: u32,
}

impl View for Ds4BtOutput {
    type V = Seq<u8>;

    /// The bytes, in the order in which they travel.
    open spec fn view(&self) -> Seq<u8> {
        seq![self.report_id, self.hw_control, self.report_tag]
            + self.payload@
            + self.padding@
            + bytes::le_u32(self.crc)
    }
}

impl Ds4BtOutput {
    /// The report with the initial payload and no checksum yet.
    pub open spec fn initial() -> Self {
        Ds4BtOutput {
            report_id: 0x11,
            hw_control: 0x80,
            report_tag: 0,
            payload: Ds4OutputPayload::initial(),
            padding: bytes::zeros::<40>(),
            crc: 0,
        }
    }

    /// The report with the initial payload and no checksum yet.
    pub fn new() -> (report: Self)
        ensures
            report == Self::initial(),
    {
        Self {
            report_id: 0x11,
            hw_control: 0x80,
            report_tag: 0,
            payload: Ds4OutputPayload::new(),
            padding: [0u8; 40],
            crc: 0,
        }
    }

    /// The bytes that the checksum covers: all but those that hold it.
    pub open spec fn body(self) -> Seq<u8> {
        self@.take(DS4_BT_OUTPUT_SIZE - CHECKSUM_SIZE)
    }

    /// The report with the checksum of its other bytes.
    pub open spec fn sealed(self) -> Self {
        Ds4BtOutput { crc: checksum::bt_crc32(self.body()), ..self }
    }

    /// Sets the checksum to that of the other bytes.
    pub fn add_crc(&mut self)
        ensures
            *final(self) == old(self).sealed(),
    {
        let bytes: Vec<u8> = self.as_bytes();
        let body: &[u8] = slice_subrange(bytes.as_slice(), 0, bytes.len() - CHECKSUM_SIZE);
        self.crc = checksum::calculate_bt_crc32(body);
    }

    /// The bytes of the value, in the order in which they travel.
    pub fn as_bytes(&self) -> (bytes: Vec<u8>)
        ensures
            bytes@ == self@,
            bytes@.len() == DS4_BT_OUTPUT_SIZE,
    {
        let mut bytes: Vec<u8> = Vec::new();
        bytes.push(self.report_id);
        bytes.push(self.hw_control);
        bytes.push(self.report_tag);
        bytes::put_bytes(&mut bytes, self.payload.as_bytes().as_slice());
        bytes::put_bytes(&mut bytes, &self.padding);
        bytes::put_le_u32(&mut bytes, self.crc);
        assert(bytes@ =~= self@);
        bytes
    }

    /// The value with these bytes. Any bytes of the right number are those of one
    /// value, and reading the bytes of a value gives that value back.
    pub fn read_from_bytes(source: &[u8]) -> (value: Result<Self>)
        ensures
            match value {
                Ok(v) => source@.len() == DS4_BT_OUTPUT_SIZE && v@ == source@,
                Err(e) => e == Error::Response && source@.len() != DS4_BT_OUTPUT_SIZE,
            },
            forall|v: Self| #[trigger] v@ == source@ ==> value == Ok::<Self, Error>(v),
    {
        if source.len() != DS4_BT_OUTPUT_SIZE {
            assert forall|v: Self| #[trigger] v@ == source@ implies false by {
                Self::view_len(v);
            }
            return Err(Error::Response);
        }
        let payload: Ds4OutputPayload = match Ds4OutputPayload::read_from_bytes(
            slice_subrange(source, 3, 34),
        ) {
            Ok(payload) => payload,
            Err(e) => {
                return Err(e);
            },
        };
        let value = Ds4BtOutput {
            report_id: source[0],
            hw_control: source[1],
            report_tag: source[2],
            payload,
            padding: bytes::get_array::<40>(source, 34),
            crc: bytes::get_le_u32(source, 74),
        };
        assert(value@ =~= source@);
        assert forall|v: Self| #[trigger] v@ == source@ implies v == value by {
            Self::view_injective(v, value);
        }
        Ok(value)
    }

    /// Where each field stands among the bytes, and that there are no others.
    pub proof fn field_positions(value: Self)
        ensures
            value@.len() == 78,
            value@[0] == value.report_id,
            value@[1] == value.hw_control,
            value@[2] == value.report_tag,
            forall|i: int| 0 <= i < 31 ==> value@[3 + i] == #[trigger] value.payload@[i],
            forall|i: int| 0 <= i < 40 ==> value@[34 + i] == #[trigger] value.padding@[i],
            value@[74] + 256 * value@[75] + 65536 * value@[76] + 16777216 * value@[77]
                == value.crc,
    {
        Ds4OutputPayload::view_len(value.payload);
        bytes::le_u32_is_positional(value.crc);
        assert(value@.subrange(74, 78) =~= bytes::le_u32(value.crc));
    }

    /// Each byte of the initial value.
    pub proof fn initial_bytes(i: int)
        requires
            0 <= i < 78,
        ensures
            Self::initial()@[i] == (if i == 0 {
                0x11u8
            } else if i == 1 {
                0x80u8
            } else if i == 3 {
                0x1Fu8
            } else {
                0u8
            }),
    {
    }

    /// Every value takes the same number of bytes.
    pub proof fn view_len(value: Self)
        ensures
            value@.len() == DS4_BT_OUTPUT_SIZE,
    {
        Ds4OutputPayload::view_len(value.payload);
    }

    /// Two values with the same bytes are the same value.
    pub proof fn view_injective(x: Self, y: Self)
        requires
            x@ == y@,
        ensures
            x == y,
    {
        Ds4OutputPayload::view_len(x.payload);
        Ds4OutputPayload::view_len(y.payload);
        assert(x.report_id == x@[0] && y.report_id == y@[0]);
        assert(x.hw_control == x@[1] && y.hw_control == y@[1]);
        assert(x.report_tag == x@[2] && y.report_tag == y@[2]);
        assert(x.payload@ =~= x@.subrange(3, 34));
        assert(y.payload@ =~= y@.subrange(3, 34));
        Ds4OutputPayload::view_injective(x.payload, y.payload);
        assert(x.padding@ =~= x@.subrange(34, 74));
        assert(y.padding@ =~= y@.subrange(34, 74));
        assert(x.padding =~= y.padding);
        assert(bytes::le_u32(x.crc) =~= x@.subrange(74, 78));
        assert(bytes::le_u32(y.crc) =~= y@.subrange(74, 78));
        bytes::le_u32_injective(x.crc, y.crc);
    }
}

/// The number of bytes of a `Ds4UsbOutput`.
pub const DS4_USB_OUTPUT_SIZE: usize = 32;

/// The USB output report of a DualShock 4.
#[derive(Debug)]
pub struct Ds4UsbOutput {
    pub report_id: u8,
    pub payload: Ds4OutputPayload,
}

impl View for Ds4UsbOutput {
    type V = Seq<u8>;

    /// The bytes, in the order in which they travel.
    open spec fn view(&self) -> Seq<u8> {
        seq![self.report_id]
            + self.payload@
    }
}

impl Ds4UsbOutput {
    /// The report with the initial payload.
    pub open spec fn initial() -> Self {
        Ds4UsbOutput {
            report_id: 0x05,
            payload: Ds4OutputPayload::initial(),
        }
    }

    /// The report with the initial payload.
    pub fn new() -> (report: Self)
        ensures
            report == Self::initial(),
    {
        Self {
            report_id: 0x05,
            payload: Ds4OutputPayload::new(),
        }
    }

    /// The bytes of the value, in the order in which they travel.
    pub fn as_bytes(&self) -> (bytes: Vec<u8>)
        ensures
            bytes@ == self@,
            bytes@.len() == DS4_USB_OUTPUT_SIZE,
    {
        let mut bytes: Vec<u8> = Vec::new();
        bytes.push(self.report_id);
        bytes::put_bytes(&mut bytes, self.payload.as_bytes().as_slice());
        assert(bytes@ =~= self@);
        bytes
    }

    /// The value with these bytes. Any bytes of the right number are those of one
    /// value, and reading the bytes of a value gives that value back.
    pub fn read_from_bytes(source: &[u8]) -> (value: Result<Self>)
        ensures
            match value {
                Ok(v) => source@.len() == DS4_USB_OUTPUT_SIZE && v@ == source@,
                Err(e) => e == Error::Response && source@.len() != DS4_USB_OUTPUT_SIZE,
            },
            forall|v: Self| #[trigger] v@ == source@ ==> value == Ok::<Self, Error>(v),
    {
        if source.len() != DS4_USB_OUTPUT_SIZE {
            assert forall|v: Self| #[trigger] v@ == source@ implies false by {
                Self::view_len(v);
            }
            return Err(Error::Response);
        }
        let payload: Ds4OutputPayload = match Ds4OutputPayload::read_from_bytes(
            slice_subrange(source, 1, 32),
        ) {
            Ok(payload) => payload,
            Err(e) => {
                return Err(e);
            },
        };
        let value = Ds4UsbOutput {
            report_id: source[0],
            payload,
        };
        assert(value@ =~= source@);
        assert forall|v: Self| #[trigger] v@ == source@ implies v == value by {
            Self::view_injective(v, value);
        }
        Ok(value)
    }

    /// Where each field stands among the bytes, and that there are no others.
    pub proof fn field_positions(value: Self)
        ensures
            value@.len() == 32,
            value@[0] == value.report_id,
            forall|i: int| 0 <= i < 31 ==> value@[1 + i] == #[trigger] value.payload@[i],
    {
        Ds4OutputPayload::view_len(value.payload);
    }

    /// Each byte of the initial value.
    pub proof fn initial_bytes(i: int)
        requires
            0 <= i < 32,
        ensures
            Self::initial()@[i] == (if i == 0 {
                0x05u8
            } else if i == 1 {
                0x1Fu8
            } else {
                0u8
            }),
    {
    }

    /// Every value takes the same number of bytes.
    pub proof fn view_len(value: Self)
        ensures
            value@.len() == DS4_USB_OUTPUT_SIZE,
    {
        Ds4OutputPayload::view_len(value.payload);
    }

    /// Two values with the same bytes are the same value.
    pub proof fn view_injective(x: Self, y: Self)
        requires
            x@ == y@,
        ensures
            x == y,
    {
        Ds4OutputPayload::view_len(x.payload);
        Ds4OutputPayload::view_len(y.payload);
        assert(x.report_id == x@[0] && y.report_id == y@[0]);
        assert(x.payload@ =~= x@.subrange(1, 32));
        assert(y.payload@ =~= y@.subrange(1, 32));
        Ds4OutputPayload::view_injective(x.payload, y.payload);
    }
}

} // verus!
