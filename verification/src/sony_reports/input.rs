//! Groups of fields that input reports are made of.

use vstd::prelude::*;

use crate::bytes;
use crate::error::{Error, Result};

verus! {

/// The number of bytes of a `CommonButtons`.
pub const COMMON_BUTTONS_SIZE: usize = 3;

/// The buttons that every controller reports.
#[derive(Debug)]
pub struct CommonButtons {
    pub dpad_and_shapes: u8,
    pub buttons_standard: u8,
    pub buttons_system: u8,
}

impl View for CommonButtons {
    type V = Seq<u8>;

    /// The bytes, in the order in which they travel.
    open spec fn view(&self) -> Seq<u8> {
        seq![self.dpad_and_shapes, self.buttons_standard, self.buttons_system]
    }
}

impl Default for CommonButtons {
    fn default() -> (zeroed: Self)
        ensures
            zeroed == CommonButtons::zeroed(),
    {
        CommonButtons {
            dpad_and_shapes: 0,
            buttons_standard: 0,
            buttons_system: 0,
        }
    }
}

impl CommonButtons {
    /// The value whose bytes are all zero.
    pub open spec fn zeroed() -> Self {
        CommonButtons {
            dpad_and_shapes: 0,
            buttons_standard: 0,
            buttons_system: 0,
        }
    }

    /// The bytes of the value, in the order in which they travel.
    pub fn as_bytes(&self) -> (bytes: Vec<u8>)
        ensures
            bytes@ == self@,
            bytes@.len() == COMMON_BUTTONS_SIZE,
    {
        let mut bytes: Vec<u8> = Vec::new();
        bytes.push(self.dpad_and_shapes);
        bytes.push(self.buttons_standard);
        bytes.push(self.buttons_system);
        assert(bytes@ =~= self@);
        bytes
    }

    /// The value with these bytes. Any bytes of the right number are those of one
    /// value, and reading the bytes of a value gives that value back.
    pub fn read_from_bytes(source: &[u8]) -> (value: Result<Self>)
        ensures
            match value {
                Ok(v) => source@.len() == COMMON_BUTTONS_SIZE && v@ == source@,
                Err(e) => e == Error::Response && source@.len() != COMMON_BUTTONS_SIZE,
            },
            forall|v: Self| #[trigger] v@ == source@ ==> value == Ok::<Self, Error>(v),
    {
        if source.len() != COMMON_BUTTONS_SIZE {
            assert forall|v: Self| #[trigger] v@ == source@ implies false by {
                Self::view_len(v);
            }
            return Err(Error::Response);
        }
        let value = CommonButtons {
            dpad_and_shapes: source[0],
            buttons_standard: source[1],
            buttons_system: source[2],
        };
        assert(value@ =~= source@);
        assert forall|v: Self| #[trigger] v@ == source@ implies v == value by {
            Self::view_injective(v, value);
        }
        Ok(value)
    }

    /// Where each field stands among the bytes, and that there are no others.
    pub proof fn field_positions(value: Self)
        ensures
            value@.len() == 3,
            value@[0] == value.dpad_and_shapes,
            value@[1] == value.buttons_standard,
            value@[2] == value.buttons_system,
    {
    }

    /// Every byte of the zeroed value is zero.
    pub proof fn zeroed_bytes(i: int)
        requires
            0 <= i < 3,
        ensures
            Self::zeroed()@[i] == 0,
    {
    }

    /// Every value takes the same number of bytes.
    pub proof fn view_len(value: Self)
        ensures
            value@.len() == COMMON_BUTTONS_SIZE,
    {
    }

    /// Two values with the same bytes are the same value.
    pub proof fn view_injective(x: Self, y: Self)
        requires
            x@ == y@,
        ensures
            x == y,
    {
        assert(x.dpad_and_shapes == x@[0] && y.dpad_and_shapes == y@[0]);
        assert(x.buttons_standard == x@[1] && y.buttons_standard == y@[1]);
        assert(x.buttons_system == x@[2] && y.buttons_system == y@[2]);
    }
}

/// The number of bytes of an `ImuData`.
pub const IMU_DATA_SIZE: usize = 12;

/// The readings of the motion sensors.
#[derive(Debug)]
pub struct ImuData {
    pub gyro_x: i16,
    pub gyro_y: i16,
    pub gyro_z: i16,
    pub accel_x: i16,
    pub accel_y: i16,
    pub accel_z: i16,
}

impl View for ImuData {
    type V = Seq<u8>;

    /// The bytes, in the order in which they travel.
    open spec fn view(&self) -> Seq<u8> {
        bytes::le_i16(self.gyro_x)
            + bytes::le_i16(self.gyro_y)
            + bytes::le_i16(self.gyro_z)
            + bytes::le_i16(self.accel_x)
            + bytes::le_i16(self.accel_y)
            + bytes::le_i16(self.accel_z)
    }
}

impl Default for ImuData {
    fn default() -> (zeroed: Self)
        ensures
            zeroed == ImuData::zeroed(),
    {
        ImuData {
            gyro_x: 0,
            gyro_y: 0,
            gyro_z: 0,
            accel_x: 0,
            accel_y: 0,
            accel_z: 0,
        }
    }
}

impl ImuData {
    /// The value whose bytes are all zero.
    pub open spec fn zeroed() -> Self {
        ImuData {
            gyro_x: 0,
            gyro_y: 0,
            gyro_z: 0,
            accel_x: 0,
            accel_y: 0,
            accel_z: 0,
        }
    }

    /// The bytes of the value, in the order in which they travel.
    pub fn as_bytes(&self) -> (bytes: Vec<u8>)
        ensures
            bytes@ == self@,
            bytes@.len() == IMU_DATA_SIZE,
    {
        let mut bytes: Vec<u8> = Vec::new();
        bytes::put_le_i16(&mut bytes, self.gyro_x);
        bytes::put_le_i16(&mut bytes, self.gyro_y);
        bytes::put_le_i16(&mut bytes, self.gyro_z);
        bytes::put_le_i16(&mut bytes, self.accel_x);
        bytes::put_le_i16(&mut bytes, self.accel_y);
        bytes::put_le_i16(&mut bytes, self.accel_z);
        assert(bytes@ =~= self@);
        bytes
    }

    /// The value with these bytes. Any bytes of the right number are those of one
    /// value, and reading the bytes of a value gives that value back.
    pub fn read_from_bytes(source: &[u8]) -> (value: Result<Self>)
        ensures
            match value {
                Ok(v) => source@.len() == IMU_DATA_SIZE && v@ == source@,
                Err(e) => e == Error::Response && source@.len() != IMU_DATA_SIZE,
            },
            forall|v: Self| #[trigger] v@ == source@ ==> value == Ok::<Self, Error>(v),
    {
        if source.len() != IMU_DATA_SIZE {
            assert forall|v: Self| #[trigger] v@ == source@ implies false by {
                Self::view_len(v);
            }
            return Err(Error::Response);
        }
        let value = ImuData {
            gyro_x: bytes::get_le_i16(source, 0),
            gyro_y: bytes::get_le_i16(source, 2),
            gyro_z: bytes::get_le_i16(source, 4),
            accel_x: bytes::get_le_i16(source, 6),
            accel_y: bytes::get_le_i16(source, 8),
            accel_z: bytes::get_le_i16(source, 10),
        };
        assert(value@ =~= source@);
        assert forall|v: Self| #[trigger] v@ == source@ implies v == value by {
            Self::view_injective(v, value);
        }
        Ok(value)
    }

    /// Where each field stands among the bytes, and that there are no others.
    pub proof fn field_positions(value: Self)
        ensures
            value@.len() == 12,
            value@[0] + 256 * value@[1] == if value.gyro_x < 0 {
                value.gyro_x + 65536
            } else {
                value.gyro_x as int
            },
            value@[2] + 256 * value@[3] == if value.gyro_y < 0 {
                value.gyro_y + 65536
            } else {
                value.gyro_y as int
            },
            value@[4] + 256 * value@[5] == if value.gyro_z < 0 {
                value.gyro_z + 65536
            } else {
                value.gyro_z as int
            },
            value@[6] + 256 * value@[7] == if value.accel_x < 0 {
                value.accel_x + 65536
            } else {
                value.accel_x as int
            },
            value@[8] + 256 * value@[9] == if value.accel_y < 0 {
                value.accel_y + 65536
            } else {
                value.accel_y as int
            },
            value@[10] + 256 * value@[11] == if value.accel_z < 0 {
                value.accel_z + 65536
            } else {
                value.accel_z as int
            },
    {
        bytes::le_i16_is_positional(value.gyro_x);
        assert(value@.subrange(0, 2) =~= bytes::le_i16(value.gyro_x));
        bytes::le_i16_is_positional(value.gyro_y);
        assert(value@.subrange(2, 4) =~= bytes::le_i16(value.gyro_y));
        bytes::le_i16_is_positional(value.gyro_z);
        assert(value@.subrange(4, 6) =~= bytes::le_i16(value.gyro_z));
        bytes::le_i16_is_positional(value.accel_x);
        assert(value@.subrange(6, 8) =~= bytes::le_i16(value.accel_x));
        bytes::le_i16_is_positional(value.accel_y);
        assert(value@.subrange(8, 10) =~= bytes::le_i16(value.accel_y));
        bytes::le_i16_is_positional(value.accel_z);
        assert(value@.subrange(10, 12) =~= bytes::le_i16(value.accel_z));
    }

    /// Every byte of the zeroed value is zero.
    pub proof fn zeroed_bytes(i: int)
        requires
            0 <= i < 12,
        ensures
            Self::zeroed()@[i] == 0,
    {
    }

    /// Every value takes the same number of bytes.
    pub proof fn view_len(value: Self)
        ensures
            value@.len() == IMU_DATA_SIZE,
    {
    }

    /// Two values with the same bytes are the same value.
    pub proof fn view_injective(x: Self, y: Self)
        requires
            x@ == y@,
        ensures
            x == y,
    {
        assert(bytes::le_i16(x.gyro_x) =~= x@.subrange(0, 2));
        assert(bytes::le_i16(y.gyro_x) =~= y@.subrange(0, 2));
        bytes::le_i16_injective(x.gyro_x, y.gyro_x);
        assert(bytes::le_i16(x.gyro_y) =~= x@.subrange(2, 4));
        assert(bytes::le_i16(y.gyro_y) =~= y@.subrange(2, 4));
        bytes::le_i16_injective(x.gyro_y, y.gyro_y);
        assert(bytes::le_i16(x.gyro_z) =~= x@.subrange(4, 6));
        assert(bytes::le_i16(y.gyro_z) =~= y@.subrange(4, 6));
        bytes::le_i16_injective(x.gyro_z, y.gyro_z);
        assert(bytes::le_i16(x.accel_x) =~= x@.subrange(6, 8));
        assert(bytes::le_i16(y.accel_x) =~= y@.subrange(6, 8));
        bytes::le_i16_injective(x.accel_x, y.accel_x);
        assert(bytes::le_i16(x.accel_y) =~= x@.subrange(8, 10));
        assert(bytes::le_i16(y.accel_y) =~= y@.subrange(8, 10));
        bytes::le_i16_injective(x.accel_y, y.accel_y);
        assert(bytes::le_i16(x.accel_z) =~= x@.subrange(10, 12));
        assert(bytes::le_i16(y.accel_z) =~= y@.subrange(10, 12));
        bytes::le_i16_injective(x.accel_z, y.accel_z);
    }
}

/// The number of bytes of a `TouchPoint`.
pub const TOUCH_POINT_SIZE: usize = 4;

/// One finger on the touch pad.
#[derive(Debug)]
pub struct TouchPoint {
    pub contact: u8,
    pub x_low: u8,
    pub x_high_y_low: u8,
    pub y_high: u8,
}

impl View for TouchPoint {
    type V = Seq<u8>;

    /// The bytes, in the order in which they travel.
    open spec fn view(&self) -> Seq<u8> {
        seq![self.contact, self.x_low, self.x_high_y_low, self.y_high]
    }
}

impl Default for TouchPoint {
    fn default() -> (zeroed: Self)
        ensures
            zeroed == TouchPoint::zeroed(),
    {
        TouchPoint {
            contact: 0,
            x_low: 0,
            x_high_y_low: 0,
            y_high: 0,
        }
    }
}

impl TouchPoint {
    /// The value whose bytes are all zero.
    pub open spec fn zeroed() -> Self {
        TouchPoint {
            contact: 0,
            x_low: 0,
            x_high_y_low: 0,
            y_high: 0,
        }
    }

    /// The bytes of the value, in the order in which they travel.
    pub fn as_bytes(&self) -> (bytes: Vec<u8>)
        ensures
            bytes@ == self@,
            bytes@.len() == TOUCH_POINT_SIZE,
    {
        let mut bytes: Vec<u8> = Vec::new();
        bytes.push(self.contact);
        bytes.push(self.x_low);
        bytes.push(self.x_high_y_low);
        bytes.push(self.y_high);
        assert(bytes@ =~= self@);
        bytes
    }

    /// The value with these bytes. Any bytes of the right number are those of one
    /// value, and reading the bytes of a value gives that value back.
    pub fn read_from_bytes(source: &[u8]) -> (value: Result<Self>)
        ensures
            match value {
                Ok(v) => source@.len() == TOUCH_POINT_SIZE && v@ == source@,
                Err(e) => e == Error::Response && source@.len() != TOUCH_POINT_SIZE,
            },
            forall|v: Self| #[trigger] v@ == source@ ==> value == Ok::<Self, Error>(v),
    {
        if source.len() != TOUCH_POINT_SIZE {
            assert forall|v: Self| #[trigger] v@ == source@ implies false by {
                Self::view_len(v);
            }
            return Err(Error::Response);
        }
        let value = TouchPoint {
            contact: source[0],
            x_low: source[1],
            x_high_y_low: source[2],
            y_high: source[3],
        };
        assert(value@ =~= source@);
        assert forall|v: Self| #[trigger] v@ == source@ implies v == value by {
            Self::view_injective(v, value);
        }
        Ok(value)
    }

    /// Where each field stands among the bytes, and that there are no others.
    pub proof fn field_positions(value: Self)
        ensures
            value@.len() == 4,
            value@[0] == value.contact,
            value@[1] == value.x_low,
            value@[2] == value.x_high_y_low,
            value@[3] == value.y_high,
    {
    }

    /// Every byte of the zeroed value is zero.
    pub proof fn zeroed_bytes(i: int)
        requires
            0 <= i < 4,
        ensures
            Self::zeroed()@[i] == 0,
    {
    }

    /// Every value takes the same number of bytes.
    pub proof fn view_len(value: Self)
        ensures
            value@.len() == TOUCH_POINT_SIZE,
    {
    }

    /// Two values with the same bytes are the same value.
    pub proof fn view_injective(x: Self, y: Self)
        requires
            x@ == y@,
        ensures
            x == y,
    {
        assert(x.contact == x@[0] && y.contact == y@[0]);
        assert(x.x_low == x@[1] && y.x_low == y@[1]);
        assert(x.x_high_y_low == x@[2] && y.x_high_y_low == y@[2]);
        assert(x.y_high == x@[3] && y.y_high == y@[3]);
    }
}

} // verus!
