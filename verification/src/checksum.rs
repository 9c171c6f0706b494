//! The checksum that closes a Bluetooth output report.
//!
//! It is a 32-bit cyclic redundancy check that takes the bits of each byte from
//! the least significant one up. An output report travels behind a one-byte HID
//! header, which the checksum covers too; the register therefore starts from the
//! state that the header leaves behind, and the header itself is never fed in.

use vstd::prelude::*;

verus! {

/// The generator polynomial, most significant coefficient first, without its
/// leading term.
pub const CRC32_POLY: u32 = 0x04c11db7;

/// The generator polynomial with its coefficients in the order in which the
/// register holds them: least significant bit first.
pub const CRC32_POLY_REFLECTED: u32 = 0xedb88320;

/// The register before the first byte of a plain CRC-32, and the mask that a
/// finished register is combined with.
pub const CRC32_ALL_ONES: u32 = 0xffffffff;

/// The check value that the catalogue lists for a plain CRC-32.
pub const CRC32_CHECK: u32 = 0xcbf43926;

/// The register from which the checksum of a report starts: the one that the
/// header byte leaves behind.
pub const BT_SEED: u32 = 0x1525d2b6;

/// The header byte that an output report travels behind.
pub const BT_HEADER: u8 = 0xa2;

/// The register after one more bit: the bit that leaves decides whether the
/// polynomial is subtracted.
pub open spec fn crc32_bit(register: u32) -> u32 {
    if register & 1 == 1 {
        (register >> 1) ^ CRC32_POLY_REFLECTED
    } else {
        register >> 1
    }
}

/// The register after `bits` more bits.
pub open spec fn crc32_bits(register: u32, bits: nat) -> u32
    decreases bits,
{
    if bits == 0 {
        register
    } else {
        crc32_bits(crc32_bit(register), (bits - 1) as nat)
    }
}

/// The register after one more byte.
pub open spec fn crc32_byte(register: u32, byte: u8) -> u32 {
    crc32_bits(register ^ (byte as u32), 8)
}

/// The register after all of `data`.
pub open spec fn crc32_register(register: u32, data: Seq<u8>) -> u32
    decreases data.len(),
{
    if data.len() == 0 {
        register
    } else {
        crc32_register(crc32_byte(register, data[0]), data.drop_first())
    }
}

/// The plain CRC-32 of `data` (CRC-32/ISO-HDLC in the catalogue).
pub open spec fn crc32(data: Seq<u8>) -> u32 {
    crc32_register(CRC32_ALL_ONES, data) ^ CRC32_ALL_ONES
}

/// The checksum of the bytes of a report.
pub open spec fn bt_crc32(data: Seq<u8>) -> u32 {
    crc32_register(BT_SEED, data) ^ CRC32_ALL_ONES
}

/// Calls `crc_fast::checksum_with_params` with the parameters that
/// `crc_fast::CrcParams::new` makes of the other arguments.
///
/// What is taken on trust: for the width, polynomial and bit order admitted here,
/// the call runs the register of `crc32_register` from `init`, as it stands and
/// without reversing its bits, over `data`, and combines the result with
/// `xorout`. `name` and `check` are only carried along and change nothing.
/// `CrcParams::new` panics on a width other than 16, 32 and 64, which `requires`
/// rules out.
#[verifier::external_body]
fn checksum_with_params(
    name: &'static str,
    width: u8,
    poly: u64,
    init: u64,
    reflected: bool,
    xorout: u64,
    check: u64,
    data: &[u8],
) -> (checksum: u64)
    requires
        width == 32,
        poly == CRC32_POLY,
        init <= u32::MAX,
        reflected,
        xorout <= u32::MAX,
    ensures
        checksum == crc32_register(init as u32, data@) ^ (xorout as u32),
{
    let params = crc_fast::CrcParams::new(
        name,
        width,
        poly,
        init,
        reflected,
        xorout,
        check,
    );
    crc_fast::checksum_with_params(params, data)
}

/// The checksum of the bytes of a Bluetooth report, without those that will hold
/// the checksum itself.
pub fn calculate_bt_crc32(report_data: &[u8]) -> (checksum: u32)
    ensures
        checksum == bt_crc32(report_data@),
        checksum == crc32_register(0xffffffff, seq![0xa2u8] + report_data@) ^ 0xffffffff,
{
    proof {
        bt_crc32_covers_header(report_data@);
    }
    let checksum: u64 = checksum_with_params(
        "CRC-32/CUSTOM",
        32,
        CRC32_POLY as u64,
        BT_SEED as u64,
        true,
        CRC32_ALL_ONES as u64,
        CRC32_CHECK as u64,
        report_data,
    );
    checksum as u32
}

/// `BT_SEED` is the register after the header byte: the checksum of a report is
/// the plain CRC-32 of the header byte followed by the report.
pub proof fn bt_crc32_covers_header(data: Seq<u8>)
    ensures
        bt_crc32(data) == crc32(seq![BT_HEADER] + data),
{
    let all = seq![BT_HEADER] + data;
    assert(all.drop_first() =~= data);
    assert(crc32_byte(CRC32_ALL_ONES, BT_HEADER) == BT_SEED) by {
        assert(0xffffffffu32 ^ 0xa2u32 == 0xffffff5d) by (bit_vector);
        assert(crc32_bit(0xffffff5d) == 0x92477c8e && crc32_bit(0x92477c8e) == 0x4923be47
            && crc32_bit(0x4923be47) == 0xc9295c03 && crc32_bit(0xc9295c03) == 0x892c2d21
            && crc32_bit(0x892c2d21) == 0xa92e95b0 && crc32_bit(0xa92e95b0) == 0x54974ad8
            && crc32_bit(0x54974ad8) == 0x2a4ba56c && crc32_bit(0x2a4ba56c) == 0x1525d2b6)
            by (bit_vector);
        reveal_with_fuel(crc32_bits, 9);
    }
}

/// Running the register over two pieces of data one after the other is running
/// it over both at once.
pub proof fn crc32_register_concat(register: u32, head: Seq<u8>, tail: Seq<u8>)
    ensures
        crc32_register(register, head + tail) == crc32_register(
            crc32_register(register, head),
            tail,
        ),
    decreases head.len(),
{
    if head.len() == 0 {
        assert(head + tail =~= tail);
    } else {
        assert((head + tail).drop_first() =~= head.drop_first() + tail);
        crc32_register_concat(crc32_byte(register, head[0]), head.drop_first(), tail);
    }
}

proof fn crc32_bits_injective(x: u32, y: u32, bits: nat)
    requires
        crc32_bits(x, bits) == crc32_bits(y, bits),
    ensures
        x == y,
    decreases bits,
{
    if bits > 0 {
        crc32_bits_injective(crc32_bit(x), crc32_bit(y), (bits - 1) as nat);
        assert(crc32_bit(x) == crc32_bit(y) ==> x == y) by (bit_vector);
    }
}

/// Two registers that meet after the same data were the same before it.
pub proof fn crc32_register_injective(x: u32, y: u32, data: Seq<u8>)
    requires
        crc32_register(x, data) == crc32_register(y, data),
    ensures
        x == y,
    decreases data.len(),
{
    if data.len() > 0 {
        let byte = data[0] as u32;
        crc32_register_injective(
            crc32_byte(x, data[0]),
            crc32_byte(y, data[0]),
            data.drop_first(),
        );
        crc32_bits_injective(x ^ byte, y ^ byte, 8);
        assert(x ^ byte == y ^ byte ==> x == y) by (bit_vector);
    }
}

/// Changing one byte of a report, whichever and to whatever, changes its checksum.
pub proof fn bt_crc32_detects_changed_byte(data: Seq<u8>, at: int, byte: u8)
    requires
        0 <= at < data.len(),
        byte != data[at],
    ensures
        bt_crc32(data.update(at, byte)) != bt_crc32(data),
{
    let head = data.take(at);
    let tail = data.skip(at + 1);
    let before = crc32_register(BT_SEED, head);
    let was = data[at];
    assert forall|b: u8| crc32_register(BT_SEED, #[trigger] data.update(at, b)) == crc32_register(
        crc32_byte(before, b),
        tail,
    ) by {
        assert(data.update(at, b) =~= head + (seq![b] + tail));
        crc32_register_concat(BT_SEED, head, seq![b] + tail);
        assert((seq![b] + tail).drop_first() =~= tail);
    }
    assert(data.update(at, was) =~= data);
    let r1 = crc32_register(BT_SEED, data.update(at, byte));
    let r2 = crc32_register(BT_SEED, data);
    if r1 == r2 {
        crc32_register_injective(crc32_byte(before, byte), crc32_byte(before, was), tail);
        crc32_bits_injective(before ^ (byte as u32), before ^ (was as u32), 8);
        assert(before ^ (byte as u32) == before ^ (was as u32) ==> byte == was) by (bit_vector);
    }
    assert(r1 ^ 0xffffffff == r2 ^ 0xffffffff ==> r1 == r2) by (bit_vector);
}

/// One bit halves the register; if the bit that leaves is set, the polynomial is
/// subtracted as well.
pub proof fn crc32_bit_is_division(register: u32)
    ensures
        register % 2 == 0 ==> crc32_bit(register) == register / 2,
        register % 2 == 1 ==> crc32_bit(register) == (register / 2) ^ 0xedb88320,
{
    assert(register & 1 == register % 2) by (bit_vector);
    assert(register >> 1 == register / 2) by (bit_vector);
}

/// One more byte takes the register eight bits further, from where the byte was added
/// to its low end.
pub proof fn crc32_extends_by_bytes(register: u32, data: Seq<u8>, byte: u8)
    ensures
        crc32_register(register, Seq::empty()) == register,
        ({
            let r0 = crc32_register(register, data) ^ (byte as u32);
            let r4 = crc32_bit(crc32_bit(crc32_bit(crc32_bit(r0))));
            crc32_register(register, data.push(byte)) == crc32_bit(
                crc32_bit(crc32_bit(crc32_bit(r4))),
            )
        }),
{
    assert(data.push(byte) =~= data + seq![byte]);
    crc32_register_concat(register, data, seq![byte]);
    assert(seq![byte].drop_first() =~= Seq::empty());
    reveal_with_fuel(crc32_register, 2);
    reveal_with_fuel(crc32_bits, 9);
}

} // verus!
