//! The reports that Sony controllers exchange with their host, byte for byte.

use vstd::prelude::*;

pub mod ds4;
pub mod dualsense;
pub mod input;


pub use ds4::{Ds4BtOutput, Ds4OutputPayload, Ds4UsbOutput};
pub use dualsense::{DualSenseBtOutput, DualSenseOutputPayload, DualSenseUsbOutput};
pub use input::{CommonButtons, ImuData, TouchPoint};

verus! {

/// The number of bytes that hold the checksum at the end of a Bluetooth report.
pub const CHECKSUM_SIZE: usize = 4;

/// The last four bytes of the report are the checksum of those before them, least
/// significant byte first.
pub open spec fn has_valid_checksum(report: Seq<u8>) -> bool {
    let covered = report.len() - CHECKSUM_SIZE;
    &&& covered >= 0
    &&& report.skip(covered) == crate::bytes::le_u32(
        crate::checksum::bt_crc32(report.take(covered)),
    )
}

/// Every report has the one length that the controller expects of its kind.
pub proof fn report_sizes(
    ds4_usb: Ds4UsbOutput,
    ds4_bt: Ds4BtOutput,
    dualsense_usb: DualSenseUsbOutput,
    dualsense_bt: DualSenseBtOutput,
)
    ensures
        ds4_usb@.len() == 32,
        ds4_bt@.len() == 78,
        dualsense_usb@.len() == 48,
        dualsense_bt@.len() == 78,
{
}

/// Sealing a DualShock 4 report makes its checksum valid and leaves every other
/// byte as it was; a report with a valid checksum is already sealed.
pub proof fn ds4_sealing(report: Ds4BtOutput)
    ensures
        has_valid_checksum(report.sealed()@),
        report.sealed().body() == report.body(),
        report.sealed().sealed() == report.sealed(),
        has_valid_checksum(report@) <==> report == report.sealed(),
{
    assert(report.sealed().body() =~= report.body());
    assert(report.sealed()@.skip(74) =~= crate::bytes::le_u32(report.sealed().crc));
    assert(report@.skip(74) =~= crate::bytes::le_u32(report.crc));
    if has_valid_checksum(report@) {
        crate::bytes::le_u32_injective(report.crc, report.sealed().crc);
    }
}

/// Sealing a DualSense report makes its checksum valid and leaves every other byte
/// as it was; a report with a valid checksum is already sealed.
pub proof fn dualsense_sealing(report: DualSenseBtOutput)
    ensures
        has_valid_checksum(report.sealed()@),
        report.sealed().body() == report.body(),
        report.sealed().sealed() == report.sealed(),
        has_valid_checksum(report@) <==> report == report.sealed(),
{
    assert(report.sealed().body() =~= report.body());
    assert(report.sealed()@.skip(74) =~= crate::bytes::le_u32(report.sealed().crc));
    assert(report@.skip(74) =~= crate::bytes::le_u32(report.crc));
    if has_valid_checksum(report@) {
        crate::bytes::le_u32_injective(report.crc, report.sealed().crc);
    }
}

/// No byte of a report with a valid checksum can be changed, be it one that the
/// checksum covers or one that holds it, without the checksum becoming invalid.
pub proof fn changed_byte_breaks_checksum(report: Seq<u8>, at: int, byte: u8)
    requires
        has_valid_checksum(report),
        0 <= at < report.len(),
        byte != report[at],
    ensures
        !has_valid_checksum(report.update(at, byte)),
{
    let covered = report.len() - CHECKSUM_SIZE;
    let changed = report.update(at, byte);
    if at < covered {
        assert(changed.take(covered) =~= report.take(covered).update(at, byte));
        assert(changed.skip(covered) =~= report.skip(covered));
        crate::checksum::bt_crc32_detects_changed_byte(report.take(covered), at, byte);
        if has_valid_checksum(changed) {
            crate::bytes::le_u32_injective(
                crate::checksum::bt_crc32(report.take(covered)),
                crate::checksum::bt_crc32(changed.take(covered)),
            );
        }
    } else {
        assert(changed.take(covered) =~= report.take(covered));
        assert(changed.skip(covered)[at - covered] == byte);
        assert(report.skip(covered)[at - covered] == report[at]);
    }
}

/// What sealing does to the bytes of a DualShock 4 report: the first 74 stay, and the last
/// four, least significant first, become the CRC-32 of a byte A2 and those 74.
pub proof fn ds4_sealed_bytes(report: Ds4BtOutput)
    ensures
        ({
            let old_bytes = report@;
            let new_bytes = report.sealed()@;
            &&& old_bytes.len() == 78
            &&& new_bytes.len() == 78
            &&& new_bytes.take(74) == old_bytes.take(74)
            &&& new_bytes[74] + 256 * new_bytes[75] + 65536 * new_bytes[76] + 16777216
                * new_bytes[77] == crate::checksum::crc32_register(
                0xffffffff,
                seq![0xa2u8] + old_bytes.take(74),
            ) ^ 0xffffffff
        }),
{
    Ds4BtOutput::field_positions(report.sealed());
    crate::checksum::bt_crc32_covers_header(report@.take(74));
    assert(report.sealed()@.take(74) =~= report@.take(74));
}

/// What sealing does to the bytes of a DualSense report: the first 74 stay, and the last
/// four, least significant first, become the CRC-32 of a byte A2 and those 74.
pub proof fn dualsense_sealed_bytes(report: DualSenseBtOutput)
    ensures
        ({
            let old_bytes = report@;
            let new_bytes = report.sealed()@;
            &&& old_bytes.len() == 78
            &&& new_bytes.len() == 78
            &&& new_bytes.take(74) == old_bytes.take(74)
            &&& new_bytes[74] + 256 * new_bytes[75] + 65536 * new_bytes[76] + 16777216
                * new_bytes[77] == crate::checksum::crc32_register(
                0xffffffff,
                seq![0xa2u8] + old_bytes.take(74),
            ) ^ 0xffffffff
        }),
{
    DualSenseBtOutput::field_positions(report.sealed());
    crate::checksum::bt_crc32_covers_header(report@.take(74));
    assert(report.sealed()@.take(74) =~= report@.take(74));
}

/// A report of at least four bytes has a valid checksum exactly if its last four, least
/// significant first, are the CRC-32 of a byte A2 and all before them; a shorter one
/// has none.
pub proof fn valid_checksum_by_bytes(report: Seq<u8>)
    ensures
        report.len() < 4 ==> !has_valid_checksum(report),
        report.len() >= 4 ==> {
            let n = report.len() - 4;
            has_valid_checksum(report) <==> report[n] + 256 * report[n + 1] + 65536 * report[n + 2]
                + 16777216 * report[n + 3] == crate::checksum::crc32_register(
                0xffffffff,
                seq![0xa2u8] + report.take(n),
            ) ^ 0xffffffff
        },
{
    if report.len() >= 4 {
        let n = report.len() - 4;
        let crc = crate::checksum::bt_crc32(report.take(n));
        crate::checksum::bt_crc32_covers_header(report.take(n));
        let (b0, b1, b2, b3) = (report[n], report[n + 1], report[n + 2], report[n + 3]);
        let last = seq![b0, b1, b2, b3];
        assert(report.skip(n) =~= last);
        if crc == b0 + 256 * b1 + 65536 * b2 + 16777216 * b3 {
            crate::bytes::le_u32_from_digits(crc, b0, b1, b2, b3);
        }
        if crate::bytes::le_u32(crc) == last {
            crate::bytes::le_u32_is_positional(crc);
            assert(last[0] == b0 && last[1] == b1 && last[2] == b2 && last[3] == b3);
        }
    }
}

} // verus!
