//! Decisions and decodings of the sensor drivers on the shared I2C bus.
//!
//! The bus transfers themselves are made by the caller; what is kept here is
//! what each driver decides from the bytes it reads: which frames it writes,
//! when a reading is ready, which status bits are errors, and how raw
//! register bytes become signed counts. Scaling counts to physical units is
//! floating point and stays with the caller.

use vstd::prelude::*;

pub mod ads1015;
pub mod ak09915;
pub mod bmp390;
pub mod icm42688;
pub mod lsm6dsox;
pub mod mmc56x3;

verus! {

/// The signed 16-bit value of two bytes, least significant first.
pub open spec fn i16_le(lo: u8, hi: u8) -> i16 {
    (lo + 256 * hi) as u16 as i16
}

/// The signed 16-bit value of two bytes, most significant first.
pub open spec fn i16_be(hi: u8, lo: u8) -> i16 {
    (lo + 256 * hi) as u16 as i16
}

/// Reads a signed 16-bit value from two bytes, least significant first.
pub fn read_i16_le(lo: u8, hi: u8) -> (r: i16)
    ensures
        r == i16_le(lo, hi),
{
    let v: u16 = lo as u16 + (hi as u16) * 256;
    v as i16
}

/// Reads a signed 16-bit value from two bytes, most significant first.
pub fn read_i16_be(hi: u8, lo: u8) -> (r: i16)
    ensures
        r == i16_be(hi, lo),
{
    let v: u16 = lo as u16 + (hi as u16) * 256;
    v as i16
}

/// Two's-complement decoding of a register pair: the value is the unsigned
/// 16-bit number the bytes spell (high byte weighing 256), less 65536 when
/// its top bit is set; the two byte orders read the same pair of bytes alike.
pub proof fn lemma_i16_decoding(lo: u8, hi: u8)
    ensures
        i16_le(lo, hi) as int == if hi < 128 { lo + 256 * hi } else { lo + 256 * hi - 65536 },
        i16_be(hi, lo) == i16_le(lo, hi),
        -32768 <= i16_le(lo, hi) < 32768,
{
    let v: u16 = (lo + 256 * hi) as u16;
    assert(v == lo + 256 * hi);
    assert((v as i16) as int == if v < 32768 { v as int } else { v - 65536 }) by (bit_vector);
}

/// Three signed raw counts, one per axis.
#[derive(Clone, Copy, Debug, PartialEq, Eq, Structural)]
pub struct Axes {
    pub x: i16,
    pub y: i16,
    pub z: i16,
}

/// The two-byte frame that writes `value` to `register`.
pub fn register_write_frame(register: u8, value: u8) -> (r: [u8; 2])
    ensures
        r@ == seq![register, value],
{
    let r = [register, value];
    assert(r@ =~= seq![register, value]);
    r
}

} // verus!
