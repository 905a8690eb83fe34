//! Decoding of the sensor's vendor-specific service-data payload.
use vstd::prelude::*;

verus! {

/// Length of a payload that carries both temperature and humidity.
pub const FULL_FRAME_LEN: usize = 18;

/// Length of a payload that carries one of the two measurements.
pub const PARTIAL_FRAME_LEN: usize = 16;

/// Offset of the byte that says which measurement a partial payload carries.
pub const KIND_OFFSET: usize = 11;

/// Discriminator of a partial payload that carries the humidity.
pub const KIND_HUMIDITY: u8 = 6;

/// Discriminator of a partial payload that carries the temperature.
pub const KIND_TEMPERATURE: u8 = 4;

/// The little-endian 16-bit value of the bytes `lo`, `hi`.
pub open spec fn le_u16(lo: u8, hi: u8) -> u16 {
    (hi as int * 256 + lo as int) as u16
}

/// Low byte of `v`.
pub open spec fn low_byte(v: u16) -> u8 {
    (v % 256) as u8
}

/// High byte of `v`.
pub open spec fn high_byte(v: u16) -> u8 {
    (v / 256) as u8
}

/// The `(temperature, humidity)` pair that a payload stands for; `0` marks a
/// measurement that the payload does not carry.
pub open spec fn decoded_reading(p: Seq<u8>) -> (u16, u16) {
    if p.len() == 18 {
        (le_u16(p[14], p[15]), le_u16(p[16], p[17]))
    } else if p.len() == 16 {
        if p[11] == 6 {
            (0, le_u16(p[14], p[15]))
        } else if p[11] == 4 {
            (le_u16(p[14], p[15]), 0)
        } else {
            (0, 0)
        }
    } else {
        (0, 0)
    }
}

/// A full payload whose first fourteen bytes are `prefix` and which carries
/// the temperature `t` and the humidity `h`.
pub open spec fn full_frame(prefix: Seq<u8>, t: u16, h: u16) -> Seq<u8> {
    prefix + seq![low_byte(t), high_byte(t), low_byte(h), high_byte(h)]
}

fn read_le_u16(lo: u8, hi: u8) -> (r: u16)
    ensures
        r == le_u16(lo, hi),
{
    assert(((hi as u16) << 8u16) | (lo as u16) == (hi as u16) * 256 + (lo as u16)) by (bit_vector);
    ((hi as u16) << 8u16) | (lo as u16)
}

/// Decodes a payload into `(temperature, humidity)`, in tenths of a unit.
///
/// An 18-byte payload carries both values, little-endian at offsets 14 and 16.
/// A 16-byte payload carries one value at offset 14: the humidity when byte 11
/// is `6`, the temperature when it is `4`, neither otherwise. Any other length
/// carries nothing. A measurement that is not carried is reported as `0`.
pub fn parse_mijia_bt_data(input: &Vec<u8>) -> (r: (u16, u16))
    ensures
        r == decoded_reading(input@),
        input@.len() == 18 ==> r == (le_u16(input@[14], input@[15]), le_u16(input@[16], input@[17])),
        input@.len() == 16 && input@[11] == 6 ==> r == (0u16, le_u16(input@[14], input@[15])),
        input@.len() == 16 && input@[11] == 4 ==> r == (le_u16(input@[14], input@[15]), 0u16),
        input@.len() == 16 && input@[11] != 6 && input@[11] != 4 ==> r == (0u16, 0u16),
        input@.len() != 16 && input@.len() != 18 ==> r == (0u16, 0u16),
{
    let mut temperature: u16 = 0;
    let mut humidity: u16 = 0;
    if input.len() == FULL_FRAME_LEN {
        temperature = read_le_u16(input[14], input[15]);
        humidity = read_le_u16(input[16], input[17]);
    } else if input.len() == PARTIAL_FRAME_LEN {
        if input[KIND_OFFSET] == KIND_HUMIDITY {
            humidity = read_le_u16(input[14], input[15]);
        } else if input[KIND_OFFSET] == KIND_TEMPERATURE {
            temperature = read_le_u16(input[14], input[15]);
        }
    }
    (temperature, humidity)
}

/// Encoding a temperature and a humidity into a full payload and decoding it
/// gives both values back, whatever the first fourteen bytes hold.
pub proof fn lemma_full_frame_round_trip(prefix: Seq<u8>, t: u16, h: u16)
    requires
        prefix.len() == 14,
    ensures
        decoded_reading(full_frame(prefix, t, h)) == (t, h),
{
    let p = full_frame(prefix, t, h);
    assert(p.len() == 18);
    assert(p[14] == low_byte(t) && p[15] == high_byte(t));
    assert(p[16] == low_byte(h) && p[17] == high_byte(h));
}

} // verus!
