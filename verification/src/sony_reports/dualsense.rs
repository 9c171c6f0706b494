//! Output reports of the DualSense.

use vstd::prelude::*;
use vstd::slice::slice_subrange;

use super::CHECKSUM_SIZE;
use crate::bytes;
use crate::checksum;
use crate::error::{Error, Result};

verus! {

/// The number of bytes of a `DualSenseOutputPayload`.
pub const DUALSENSE_OUTPUT_PAYLOAD_SIZE: usize = 47;

/// What a DualSense is told to do, whichever way the report travels.
#[derive(Debug)]
pub struct DualSenseOutputPayload {
    pub flag_0: u8,
    pub flag_1: u8,
    pub motor_right: u8,
    pub motor_left: u8,
    pub vol_headphone: u8,
    pub vol_speaker: u8,
    pub vol_mic: u8,
    pub audio_flags: u8,
    pub mute_button_led: u8,
    pub power_save_control: u8,
    pub trigger_l2_mode: u8,
    pub trigger_l2_params: [u8; 9],
    pub trigger_r2_mode: u8,
    pub trigger_r2_params: [u8; 9],
    pub reserved_0: [u8; 12],
    pub motor_flags: u8,
    pub player_leds: u8,
    pub led_red: u8,
    pub led_green: u8,
    pub led_blue: u8,
}

impl View for DualSenseOutputPayload {
    type V = Seq<u8>;

    /// The bytes, in the order in which they travel.
    open spec fn view(&self) -> Seq<u8> {
        seq![
            self.flag_0,
            self.flag_1,
            self.motor_right,
            self.motor_left,
            self.vol_headphone,
            self.vol_speaker,
            self.vol_mic,
            self.audio_flags,
            self.mute_button_led,
            self.power_save_control,
            self.trigger_l2_mode,
        ]
            + self.trigger_l2_params@
            + seq![self.trigger_r2_mode]
            + self.trigger_r2_params@
            + self.reserved_0@
            + seq![self.motor_flags, self.player_leds, self.led_red, self.led_green, self.led_blue]
    }
}

impl Default for DualSenseOutputPayload {
    fn default() -> (zeroed: Self)
        ensures
            zeroed == DualSenseOutputPayload::zeroed(),
    {
        DualSenseOutputPayload {
            flag_0: 0,
            flag_1: 0,
            motor_right: 0,
            motor_left: 0,
            vol_headphone: 0,
            vol_speaker: 0,
            vol_mic: 0,
            audio_flags: 0,
            mute_button_led: 0,
            power_save_control: 0,
            trigger_l2_mode: 0,
            trigger_l2_params: [0u8; 9],
            trigger_r2_mode: 0,
            trigger_r2_params: [0u8; 9],
            reserved_0: [0u8; 12],
            motor_flags: 0,
            player_leds: 0,
            led_red: 0,
            led_green: 0,
            led_blue: 0,
        }
    }
}

impl DualSenseOutputPayload {
    /// The value whose bytes are all zero.
    pub open spec fn zeroed() -> Self {
        DualSenseOutputPayload {
            flag_0: 0,
            flag_1: 0,
            motor_right: 0,
            motor_left: 0,
            vol_headphone: 0,
            vol_speaker: 0,
            vol_mic: 0,
            audio_flags: 0,
            mute_button_led: 0,
            power_save_control: 0,
            trigger_l2_mode: 0,
            trigger_l2_params: bytes::zeros::<9>(),
            trigger_r2_mode: 0,
            trigger_r2_params: bytes::zeros::<9>(),
            reserved_0: bytes::zeros::<12>(),
            motor_flags: 0,
            player_leds: 0,
            led_red: 0,
            led_green: 0,
            led_blue: 0,
        }
    }

    /// Rumble, triggers, audio and lights are enabled, and all set to zero.
    pub open spec fn initial() -> Self {
        DualSenseOutputPayload { flag_0: 0x07, flag_1: 0x1F, ..Self::zeroed() }
    }

    /// Rumble, triggers, audio and lights are enabled, and all set to zero.
    pub fn new() -> (payload: Self)
        ensures
            payload == Self::initial(),
    {
        Self { flag_0: 0x07, flag_1: 0x1F, ..Default::default() }
    }

    /// The bytes of the value, in the order in which they travel.
    pub fn as_bytes(&self) -> (bytes: Vec<u8>)
        ensures
            bytes@ == self@,
            bytes@.len() == DUALSENSE_OUTPUT_PAYLOAD_SIZE,
    {
        let mut bytes: Vec<u8> = Vec::new();
        bytes.push(self.flag_0);
        bytes.push(self.flag_1);
        bytes.push(self.motor_right);
        bytes.push(self.motor_left);
        bytes.push(self.vol_headphone);
        bytes.push(self.vol_speaker);
        bytes.push(self.vol_mic);
        bytes.push(self.audio_flags);
        bytes.push(self.mute_button_led);
        bytes.push(self.power_save_control);
        bytes.push(self.trigger_l2_mode);
        bytes::put_bytes(&mut bytes, &self.trigger_l2_params);
        bytes.push(self.trigger_r2_mode);
        bytes::put_bytes(&mut bytes, &self.trigger_r2_params);
        bytes::put_bytes(&mut bytes, &self.reserved_0);
        bytes.push(self.motor_flags);
        bytes.push(self.player_leds);
        bytes.push(self.led_red);
        bytes.push(self.led_green);
        bytes.push(self.led_blue);
        assert(bytes@ =~= self@);
        bytes
    }

    /// The value with these bytes. Any bytes of the right number are those of one
    /// value, and reading the bytes of a value gives that value back.
    pub fn read_from_bytes(source: &[u8]) -> (value: Result<Self>)
        ensures
            match value {
                Ok(v) => source@.len() == DUALSENSE_OUTPUT_PAYLOAD_SIZE && v@ == source@,
                Err(e) => e == Error::Response && source@.len() != DUALSENSE_OUTPUT_PAYLOAD_SIZE,
            },
            forall|v: Self| #[trigger] v@ == source@ ==> value == Ok::<Self, Error>(v),
    {
        if source.len() != DUALSENSE_OUTPUT_PAYLOAD_SIZE {
            assert forall|v: Self| #[trigger] v@ == source@ implies false by {
                Self::view_len(v);
            }
            return Err(Error::Response);
        }
        let value = DualSenseOutputPayload {
            flag_0: source[0],
            flag_1: source[1],
            motor_right: source[2],
            motor_left: source[3],
            vol_headphone: source[4],
            vol_speaker: source[5],
            vol_mic: source[6],
            audio_flags: source[7],
            mute_button_led: source[8],
            power_save_control: source[9],
            trigger_l2_mode: source[10],
            trigger_l2_params: bytes::get_array::<9>(source, 11),
            trigger_r2_mode: source[20],
            trigger_r2_params: bytes::get_array::<9>(source, 21),
            reserved_0: bytes::get_array::<12>(source, 30),
            motor_flags: source[42],
            player_leds: source[43],
            led_red: source[44],
            led_green: source[45],
            led_blue: source[46],
        };
        assert(value@ =~= source@);
        assert forall|v: Self| #[trigger] v@ == source@ implies v == value by {
            Self::view_injective(v, value);
        }
        Ok(value)
    }

    /// Where each field stands among the bytes, and that there are no others.
    pub proof fn field_positions(value: Self)
        ensures
            value@.len() == 47,
            value@[0] == value.flag_0,
            value@[1] == value.flag_1,
            value@[2] == value.motor_right,
            value@[3] == value.motor_left,
            value@[4] == value.vol_headphone,
            value@[5] == value.vol_speaker,
            value@[6] == value.vol_mic,
            value@[7] == value.audio_flags,
            value@[8] == value.mute_button_led,
            value@[9] == value.power_save_control,
            value@[10] == value.trigger_l2_mode,
            forall|i: int| 0 <= i < 9 ==> value@[11 + i] == #[trigger] value.trigger_l2_params@[i],
            value@[20] == value.trigger_r2_mode,
            forall|i: int| 0 <= i < 9 ==> value@[21 + i] == #[trigger] value.trigger_r2_params@[i],
            forall|i: int| 0 <= i < 12 ==> value@[30 + i] == #[trigger] value.reserved_0@[i],
            value@[42] == value.motor_flags,
            value@[43] == value.player_leds,
            value@[44] == value.led_red,
            value@[45] == value.led_green,
            value@[46] == value.led_blue,
    {
    }

    /// Every byte of the zeroed value is zero.
    pub proof fn zeroed_bytes(i: int)
        requires
            0 <= i < 47,
        ensures
            Self::zeroed()@[i] == 0,
    {
    }

    /// Each byte of the initial value.
    pub proof fn initial_bytes(i: int)
        requires
            0 <= i < 47,
        ensures
            Self::initial()@[i] == (if i == 0 {
                0x07u8
            } else if i == 1 {
                0x1Fu8
            } else {
                0u8
            }),
    {
    }

    /// Every value takes the same number of bytes.
    pub proof fn view_len(value: Self)
        ensures
            value@.len() == DUALSENSE_OUTPUT_PAYLOAD_SIZE,
    {
    }

    /// Two values with the same bytes are the same value.
    pub proof fn view_injective(x: Self, y: Self)
        requires
            x@ == y@,
        ensures
            x == y,
    {
        assert(x.flag_0 == x@[0] && y.flag_0 == y@[0]);
        assert(x.flag_1 == x@[1] && y.flag_1 == y@[1]);
        assert(x.motor_right == x@[2] && y.motor_right == y@[2]);
        assert(x.motor_left == x@[3] && y.motor_left == y@[3]);
        assert(x.vol_headphone == x@[4] && y.vol_headphone == y@[4]);
        assert(x.vol_speaker == x@[5] && y.vol_speaker == y@[5]);
        assert(x.vol_mic == x@[6] && y.vol_mic == y@[6]);
        assert(x.audio_flags == x@[7] && y.audio_flags == y@[7]);
        assert(x.mute_button_led == x@[8] && y.mute_button_led == y@[8]);
        assert(x.power_save_control == x@[9] && y.power_save_control == y@[9]);
        assert(x.trigger_l2_mode == x@[10] && y.trigger_l2_mode == y@[10]);
        assert(x.trigger_l2_params@ =~= x@.subrange(11, 20));
        assert(y.trigger_l2_params@ =~= y@.subrange(11, 20));
        assert(x.trigger_l2_params =~= y.trigger_l2_params);
        assert(x.trigger_r2_mode == x@[20] && y.trigger_r2_mode == y@[20]);
        assert(x.trigger_r2_params@ =~= x@.subrange(21, 30));
        assert(y.trigger_r2_params@ =~= y@.subrange(21, 30));
        assert(x.trigger_r2_params =~= y.trigger_r2_params);
        assert(x.reserved_0@ =~= x@.subrange(30, 42));
        assert(y.reserved_0@ =~= y@.subrange(30, 42));
        assert(x.reserved_0 =~= y.reserved_0);
        assert(x.motor_flags == x@[42] && y.motor_flags == y@[42]);
        assert(x.player_leds == x@[43] && y.player_leds == y@[43]);
        assert(x.led_red == x@[44] && y.led_red == y@[44]);
        assert(x.led_green == x@[45] && y.led_green == y@[45]);
        assert(x.led_blue == x@[46] && y.led_blue == y@[46]);
    }
}

/// The number of bytes of a `DualSenseBtOutput`.
pub const DUALSENSE_BT_OUTPUT_SIZE: usize = 78;

/// The Bluetooth output report of a DualSense.
#[derive(Debug)]
pub struct DualSenseBtOutput {
    pub report_id: u8,
    pub tag: u8,
    pub payload: DualSenseOutputPayload,
    pub padding: [u8; 25],
    pub crc: u32,
}

impl View for DualSenseBtOutput {
    type V = Seq<u8>;

    /// The bytes, in the order in which they travel.
    open spec fn view(&self) -> Seq<u8> {
        seq![self.report_id, self.tag]
            + self.payload@
            + self.padding@
            + bytes::le_u32(self.crc)
    }
}

impl DualSenseBtOutput {
    /// The report with the initial payload and no checksum yet.
    pub open spec fn initial() -> Self {
        DualSenseBtOutput {
            report_id: 0x31,
            tag: 0x02,
            payload: DualSenseOutputPayload::initial(),
            padding: bytes::zeros::<25>(),
            crc: 0,
        }
    }

    /// The report with the initial payload and no checksum yet.
    pub fn new() -> (report: Self)
        ensures
            report == Self::initial(),
    {
        Self {
            report_id: 0x31,
            tag: 0x02,
            payload: DualSenseOutputPayload::new(),
            padding: [0u8; 25],
            crc: 0,
        }
    }

    /// The bytes that the checksum covers: all but those that hold it.
    pub open spec fn body(self) -> Seq<u8> {
        self@.take(DUALSENSE_BT_OUTPUT_SIZE - CHECKSUM_SIZE)
    }

    /// The report with the checksum of its other bytes.
    pub open spec fn sealed(self) -> Self {
        DualSenseBtOutput { crc: checksum::bt_crc32(self.body()), ..self }
    }

    /// Sets the checksum to that of the other bytes.
    pub fn add_crc(&mut self)
        ensures
            *final(self) == old(self).sealed(),
    {
        let bytes: Vec<u8> = self.as_bytes();
        let body: &[u8] = slice_subrange(bytes.as_slice(), 0, bytes.len() - CHECKSUM_SIZE);
        self.crc = checksum::calculate_bt_crc32(body);
    }

    /// The bytes of the value, in the order in which they travel.
    pub fn as_bytes(&self) -> (bytes: Vec<u8>)
        ensures
            bytes@ == self@,
            bytes@.len() == DUALSENSE_BT_OUTPUT_SIZE,
    {
        let mut bytes: Vec<u8> = Vec::new();
        bytes.push(self.report_id);
        bytes.push(self.tag);
        bytes::put_bytes(&mut bytes, self.payload.as_bytes().as_slice());
        bytes::put_bytes(&mut bytes, &self.padding);
        bytes::put_le_u32(&mut bytes, self.crc);
        assert(bytes@ =~= self@);
        bytes
    }

    /// The value with these bytes. Any bytes of the right number are those of one
    /// value, and reading the bytes of a value gives that value back.
    pub fn read_from_bytes(source: &[u8]) -> (value: Result<Self>)
        ensures
            match value {
                Ok(v) => source@.len() == DUALSENSE_BT_OUTPUT_SIZE && v@ == source@,
                Err(e) => e == Error::Response && source@.len() != DUALSENSE_BT_OUTPUT_SIZE,
            },
            forall|v: Self| #[trigger] v@ == source@ ==> value == Ok::<Self, Error>(v),
    {
        if source.len() != DUALSENSE_BT_OUTPUT_SIZE {
            assert forall|v: Self| #[trigger] v@ == source@ implies false by {
                Self::view_len(v);
            }
            return Err(Error::Response);
        }
        let payload: DualSenseOutputPayload = match DualSenseOutputPayload::read_from_bytes(
            slice_subrange(source, 2, 49),
        ) {
            Ok(payload) => payload,
            Err(e) => {
                return Err(e);
            },
        };
        let value = DualSenseBtOutput {
            report_id: source[0],
            tag: source[1],
            payload,
            padding: bytes::get_array::<25>(source, 49),
            crc: bytes::get_le_u32(source, 74),
        };
        assert(value@ =~= source@);
        assert forall|v: Self| #[trigger] v@ == source@ implies v == value by {
            Self::view_injective(v, value);
        }
        Ok(value)
    }

    /// Where each field stands among the bytes, and that there are no others.
    pub proof fn field_positions(value: Self)
        ensures
            value@.len() == 78,
            value@[0] == value.report_id,
            value@[1] == value.tag,
            forall|i: int| 0 <= i < 47 ==> value@[2 + i] == #[trigger] value.payload@[i],
            forall|i: int| 0 <= i < 25 ==> value@[49 + i] == #[trigger] value.padding@[i],
            value@[74] + 256 * value@[75] + 65536 * value@[76] + 16777216 * value@[77]
                == value.crc,
    {
        DualSenseOutputPayload::view_len(value.payload);
        bytes::le_u32_is_positional(value.crc);
        assert(value@.subrange(74, 78) =~= bytes::le_u32(value.crc));
    }

    /// Each byte of the initial value.
    pub proof fn initial_bytes(i: int)
        requires
            0 <= i < 78,
        ensures
            Self::initial()@[i] == (if i == 0 {
                0x31u8
            } else if i == 1 {
                0x02u8
            } else if i == 2 {
                0x07u8
            } else if i == 3 {
                0x1Fu8
            } else {
                0u8
            }),
    {
    }

    /// Every value takes the same number of bytes.
    pub proof fn view_len(value: Self)
        ensures
            value@.len() == DUALSENSE_BT_OUTPUT_SIZE,
    {
        DualSenseOutputPayload::view_len(value.payload);
    }

    /// Two values with the same bytes are the same value.
    pub proof fn view_injective(x: Self, y: Self)
        requires
            x@ == y@,
        ensures
            x == y,
    {
        DualSenseOutputPayload::view_len(x.payload);
        DualSenseOutputPayload::view_len(y.payload);
        assert(x.report_id == x@[0] && y.report_id == y@[0]);
        assert(x.tag == x@[1] && y.tag == y@[1]);
        assert(x.payload@ =~= x@.subrange(2, 49));
        assert(y.payload@ =~= y@.subrange(2, 49));
        DualSenseOutputPayload::view_injective(x.payload, y.payload);
        assert(x.padding@ =~= x@.subrange(49, 74));
        assert(y.padding@ =~= y@.subrange(49, 74));
        assert(x.padding =~= y.padding);
        assert(bytes::le_u32(x.crc) =~= x@.subrange(74, 78));
        assert(bytes::le_u32(y.crc) =~= y@.subrange(74, 78));
        bytes::le_u32_injective(x.crc, y.crc);
    }
}

/// The number of bytes of a `DualSenseUsbOutput`.
pub const DUALSENSE_USB_OUTPUT_SIZE: usize = 48;

/// The USB output report of a DualSense.
#[derive(Debug)]
pub struct DualSenseUsbOutput {
    pub report_id: u8,
    pub payload: DualSenseOutputPayload,
}

impl View for DualSenseUsbOutput {
    type V = Seq<u8>;

    /// The bytes, in the order in which they travel.
    open spec fn view(&self) -> Seq<u8> {
        seq![self.report_id]
            + self.payload@
    }
}

impl DualSenseUsbOutput {
    /// The report with the initial payload.
    pub open spec fn initial() -> Self {
        DualSenseUsbOutput {
            report_id: 0x02,
            payload: DualSenseOutputPayload::initial(),
        }
    }

    /// The report with the initial payload.
    pub fn new() -> (report: Self)
        ensures
            report == Self::initial(),
    {
        Self {
            report_id: 0x02,
            payload: DualSenseOutputPayload::new(),
        }
    }

    /// The bytes of the value, in the order in which they travel.
    pub fn as_bytes(&self) -> (bytes: Vec<u8>)
        ensures
            bytes@ == self@,
            bytes@.len() == DUALSENSE_USB_OUTPUT_SIZE,
    {
        let mut bytes: Vec<u8> = Vec::new();
        bytes.push(self.report_id);
        bytes::put_bytes(&mut bytes, self.payload.as_bytes().as_slice());
        assert(bytes@ =~= self@);
        bytes
    }

    /// The value with these bytes. Any bytes of the right number are those of one
    /// value, and reading the bytes of a value gives that value back.
    pub fn read_from_bytes(source: &[u8]) -> (value: Result<Self>)
        ensures
            match value {
                Ok(v) => source@.len() == DUALSENSE_USB_OUTPUT_SIZE && v@ == source@,
                Err(e) => e == Error::Response && source@.len() != DUALSENSE_USB_OUTPUT_SIZE,
            },
            forall|v: Self| #[trigger] v@ == source@ ==> value == Ok::<Self, Error>(v),
    {
        if source.len() != DUALSENSE_USB_OUTPUT_SIZE {
            assert forall|v: Self| #[trigger] v@ == source@ implies false by {
                Self::view_len(v);
            }
            return Err(Error::Response);
        }
        let payload: DualSenseOutputPayload = match DualSenseOutputPayload::read_from_bytes(
            slice_subrange(source, 1, 48),
        ) {
            Ok(payload) => payload,
            Err(e) => {
                return Err(e);
            },
        };
        let value = DualSenseUsbOutput {
            report_id: source[0],
            payload,
        };
        assert(value@ =~= source@);
        assert forall|v: Self| #[trigger] v@ == source@ implies v == value by {
            Self::view_injective(v, value);
        }
        Ok(value)
    }

    /// Where each field stands among the bytes, and that there are no others.
    pub proof fn field_positions(value: Self)
        ensures
            value@.len() == 48,
            value@[0] == value.report_id,
            forall|i: int| 0 <= i < 47 ==> value@[1 + i] == #[trigger] value.payload@[i],
    {
        DualSenseOutputPayload::view_len(value.payload);
    }

    /// Each byte of the initial value.
    pub proof fn initial_bytes(i: int)
        requires
            0 <= i < 48,
        ensures
            Self::initial()@[i] == (if i == 0 {
                0x02u8
            } else if i == 1 {
                0x07u8
            } else if i == 2 {
                0x1Fu8
            } else {
                0u8
            }),
    {
    }

    /// Every value takes the same number of bytes.
    pub proof fn view_len(value: Self)
        ensures
            value@.len() == DUALSENSE_USB_OUTPUT_SIZE,
    {
        DualSenseOutputPayload::view_len(value.payload);
    }

    /// Two values with the same bytes are the same value.
    pub proof fn view_injective(x: Self, y: Self)
        requires
            x@ == y@,
        ensures
            x == y,
    {
        DualSenseOutputPayload::view_len(x.payload);
        DualSenseOutputPayload::view_len(y.payload);
        assert(x.report_id == x@[0] && y.report_id == y@[0]);
        assert(x.payload@ =~= x@.subrange(1, 48));
        assert(y.payload@ =~= y@.subrange(1, 48));
        DualSenseOutputPayload::view_injective(x.payload, y.payload);
    }
}

} // verus!
