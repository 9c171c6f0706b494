//! What can go wrong while talking to a controller.

use vstd::prelude::*;

verus! {

/// The errors that the library itself decides on.
#[derive(Debug, Clone, Copy)]
pub enum Error {
    /// The device is not one that the library knows.
    InvalidDevice,
    /// The bytes are not of the length that the value takes.
    Response,
    /// Input of the device is already being processed.
    Busy,
    /// The operation is not available; the text says which and why.
    Unsupported(&'static str),
}

pub type Result<T> = std::result::Result<T, Error>;

} // verus!
