//! MMC56x3 magnetometer: 20-bit offset-binary axes, assembled from a high, a
//! middle and the top half of a low byte.

use vstd::prelude::*;

verus! {

/// I2C address.
pub const MMC56X3_ADDR: u8 = 0x30;
/// First data register (X axis, high byte).
pub const REG_OUT_X0: u8 = 0x00;
/// Status 1.
pub const REG_STATUS1: u8 = 0x18;
/// Output data rate.
pub const REG_ODR: u8 = 0x1A;
/// Control 1 (soft reset).
pub const REG_CTRL1: u8 = 0x1C;
/// Control 2 (continuous mode).
pub const REG_CTRL2: u8 = 0x1D;
/// Status 1: measurement done.
pub const STATUS1_DRDY: u8 = 0x01;
/// Soft reset bit of control 1.
pub const SOFT_RESET: u8 = 0x01;
/// 200 Hz output data rate.
pub const ODR_200HZ: u8 = 200;
/// Continuous-mode setting of control 2.
pub const CTRL2_CONTINUOUS: u8 = 0x10;

/// MMC56x3 errors.
#[derive(Debug)]
pub enum Mmc56x3Error<E> {
    I2c(E),
    DataNotReady,
}

impl<E> From<E> for Mmc56x3Error<E> {
    fn from(error: E) -> (r: Self) {
        Mmc56x3Error::I2c(error)
    }
}

impl<E> vstd::std_specs::convert::FromSpecImpl<E> for Mmc56x3Error<E> {
    open spec fn obeys_from_spec() -> bool {
        true
    }

    open spec fn from_spec(error: E) -> Self {
        Mmc56x3Error::I2c(error)
    }
}

/// The 20-bit count of one axis: the high byte is bits 19..12, the middle
/// byte bits 11..4 and the top nibble of the low byte bits 3..0.
pub open spec fn axis_count(hi: u8, mid: u8, lo: u8) -> int {
    hi * 4096 + mid * 16 + lo / 16
}

/// The signed value an axis takes: its count less the 2^19 offset of the
/// sensor's unsigned output code.
pub open spec fn axis_value(hi: u8, mid: u8, lo: u8) -> int {
    axis_count(hi, mid, lo) - 524288
}

/// The three axis values of one reading.
#[derive(Clone, Copy, Debug, PartialEq, Eq, Structural)]
pub struct MagCounts {
    pub x: i32,
    pub y: i32,
    pub z: i32,
}

/// The MMC56x3 driver.
pub struct Mmc56x3Sensor {}

impl Mmc56x3Sensor {
    /// The driver.
    pub fn new() -> (r: Mmc56x3Sensor) {
        Mmc56x3Sensor {}
    }

    /// Whether status register 1 says a measurement is ready; a reading
    /// without it is an error.
    pub fn check_ready<E>(status: u8) -> (r: Result<(), Mmc56x3Error<E>>)
        ensures
            status & STATUS1_DRDY != 0 ==> r is Ok,
            status & STATUS1_DRDY == 0 ==> r is Err && r->Err_0 is DataNotReady,
    {
        if status & STATUS1_DRDY == 0 {
            return Err(Mmc56x3Error::DataNotReady);
        }
        Ok(())
    }

    /// One axis from its three bytes.
    pub fn axis(hi: u8, mid: u8, lo: u8) -> (r: i32)
        ensures
            r == axis_value(hi, mid, lo),
            -524288 <= r < 524288,
    {
        let raw: i32 = (hi as i32) * 4096 + (mid as i32) * 16 + (lo as i32) / 16;
        raw - 524288
    }

    /// Decodes the nine bytes read from `REG_OUT_X0` on: the high and
    /// middle bytes of X, Y and Z, then the low bytes of X, Y and Z.
    pub fn decode(buf: &[u8; 9]) -> (r: MagCounts)
        ensures
            r.x == axis_value(buf@[0], buf@[1], buf@[6]),
            r.y == axis_value(buf@[2], buf@[3], buf@[7]),
            r.z == axis_value(buf@[4], buf@[5], buf@[8]),
    {
        MagCounts {
            x: Self::axis(buf[0], buf[1], buf[6]),
            y: Self::axis(buf[2], buf[3], buf[7]),
            z: Self::axis(buf[4], buf[5], buf[8]),
        }
    }

    /// The register writes of start-up, in order: soft reset, 200 Hz output
    /// rate, continuous mode.
    pub fn init_writes() -> (r: Vec<(u8, u8)>)
        ensures
            r@ == seq![(REG_CTRL1, SOFT_RESET), (REG_ODR, ODR_200HZ), (REG_CTRL2, CTRL2_CONTINUOUS)],
    {
        let r = vec![(REG_CTRL1, SOFT_RESET), (REG_ODR, ODR_200HZ), (REG_CTRL2, CTRL2_CONTINUOUS)];
        assert(r@ =~= seq![(REG_CTRL1, SOFT_RESET), (REG_ODR, ODR_200HZ), (REG_CTRL2, CTRL2_CONTINUOUS)]);
        r
    }
}

} // verus!
