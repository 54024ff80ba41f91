//! AK09915 magnetometer: continuous 200 Hz measurement, read as one burst of
//! the three axes, the temperature byte and the second status register.

use vstd::prelude::*;
use crate::driver::{Axes, i16_le, read_i16_le};

verus! {

/// I2C address.
pub const AK09915_ADDR: u8 = 0x0C;
/// Status 1.
pub const REG_ST1: u8 = 0x10;
/// First data register (X axis, low byte).
pub const REG_HXL: u8 = 0x11;
/// Control 2: measurement mode.
pub const REG_CNTL2: u8 = 0x31;
/// Control 3: soft reset.
pub const REG_CNTL3: u8 = 0x32;
/// Continuous measurement at 200 Hz.
pub const MODE_CONTINUOUS_200HZ: u8 = 0x10;
/// Soft reset.
pub const SOFT_RESET: u8 = 0x01;
/// ST1: data ready.
pub const ST1_DRDY: u8 = 0x01;
/// ST2: magnetic sensor overflow.
pub const ST2_HOFL: u8 = 0x08;
/// ST2: invalid data.
pub const ST2_INV: u8 = 0x04;

/// AK09915 errors.
#[derive(Debug)]
pub enum Ak09915Error<E> {
    I2c(E),
    MagneticSensorOverflow,
    InvalidData,
}

impl<E> From<E> for Ak09915Error<E> {
    fn from(error: E) -> (r: Self) {
        Ak09915Error::I2c(error)
    }
}

impl<E> vstd::std_specs::convert::FromSpecImpl<E> for Ak09915Error<E> {
    open spec fn obeys_from_spec() -> bool {
        true
    }

    open spec fn from_spec(error: E) -> Self {
        Ak09915Error::I2c(error)
    }
}

/// The AK09915 driver. The chip needs no state on this side: it is reset and
/// put in continuous mode at start-up, then read.
pub struct Ak09915Sensor {}

impl Ak09915Sensor {
    /// The driver.
    pub fn new() -> (r: Ak09915Sensor) {
        Ak09915Sensor {}
    }

    /// The register writes made at start-up, in order: soft reset, then
    /// continuous 200 Hz mode.
    pub fn init_writes() -> (r: Vec<(u8, u8)>)
        ensures
            r@ == seq![(REG_CNTL3, SOFT_RESET), (REG_CNTL2, MODE_CONTINUOUS_200HZ)],
    {
        let r = vec![(REG_CNTL3, SOFT_RESET), (REG_CNTL2, MODE_CONTINUOUS_200HZ)];
        assert(r@ =~= seq![(REG_CNTL3, SOFT_RESET), (REG_CNTL2, MODE_CONTINUOUS_200HZ)]);
        r
    }

    /// Whether status register 1 says a new measurement is ready; when it is
    /// not, the packet keeps its previous values.
    pub fn data_ready(st1: u8) -> (r: bool)
        ensures
            r == (st1 & ST1_DRDY != 0),
    {
        st1 & ST1_DRDY != 0
    }

    /// Decodes the eight bytes read from `REG_HXL` on: three little-endian
    /// axes, the temperature byte, and ST2, whose overflow bit is checked
    /// before its invalid-data bit.
    pub fn decode<E>(data: &[u8; 8]) -> (r: Result<Axes, Ak09915Error<E>>)
        ensures
            data@[7] & ST2_HOFL != 0 ==> r is Err && r->Err_0 is MagneticSensorOverflow,
            data@[7] & ST2_HOFL == 0 && data@[7] & ST2_INV != 0 ==> r is Err && r->Err_0 is InvalidData,
            data@[7] & ST2_HOFL == 0 && data@[7] & ST2_INV == 0 ==> r == Ok::<Axes, Ak09915Error<E>>(Axes {
                x: i16_le(data@[0], data@[1]),
                y: i16_le(data@[2], data@[3]),
                z: i16_le(data@[4], data@[5]),
            }),
    {
        let st2 = data[7];
        if st2 & ST2_HOFL != 0 {
            return Err(Ak09915Error::MagneticSensorOverflow);
        }
        if st2 & ST2_INV != 0 {
            return Err(Ak09915Error::InvalidData);
        }
        Ok(Axes {
            x: read_i16_le(data[0], data[1]),
            y: read_i16_le(data[2], data[3]),
            z: read_i16_le(data[4], data[5]),
        })
    }
}

} // verus!
