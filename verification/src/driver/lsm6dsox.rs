//! LSM6DSOX six-axis IMU: ±16 g and ±2000 dps at 416 Hz, read as one
//! little-endian burst of gyroscope then accelerometer.

use vstd::prelude::*;
use crate::driver::{Axes, i16_le, read_i16_le};
use crate::driver::icm42688::ImuCounts;

verus! {

/// I2C address (SA0 grounded).
pub const LSM6DSOX_ADDR: u8 = 0x6A;
/// Device ID register.
pub const REG_WHO_AM_I: u8 = 0x0F;
/// Accelerometer control.
pub const REG_CTRL1_XL: u8 = 0x10;
/// Gyroscope control.
pub const REG_CTRL2_G: u8 = 0x11;
/// Common control (block data update).
pub const REG_CTRL3_C: u8 = 0x12;
/// First data register (gyroscope X, low byte).
pub const REG_OUTX_L_G: u8 = 0x22;
/// The device ID the chip reports.
pub const WHO_AM_I_VALUE: u8 = 0x6C;

/// LSM6DSOX errors.
#[derive(Debug)]
pub enum Lsm6dsoxError<E> {
    I2c(E),
    InvalidDeviceId(u8),
}

impl<E> From<E> for Lsm6dsoxError<E> {
    fn from(error: E) -> (r: Self) {
        Lsm6dsoxError::I2c(error)
    }
}

impl<E> vstd::std_specs::convert::FromSpecImpl<E> for Lsm6dsoxError<E> {
    open spec fn obeys_from_spec() -> bool {
        true
    }

    open spec fn from_spec(error: E) -> Self {
        Lsm6dsoxError::I2c(error)
    }
}

/// LSM6DSOX driver state: whether the chip answered with its ID at start-up.
pub struct Lsm6dsoxSensor {
    initialized: bool,
}

impl Lsm6dsoxSensor {
    /// Whether the chip answered with its ID at start-up.
    pub closed spec fn ready(&self) -> bool {
        self.initialized
    }

    /// A sensor that is known to be absent: it never reads.
    pub fn unavailable() -> (r: Lsm6dsoxSensor)
        ensures
            !r.ready(),
    {
        Lsm6dsoxSensor { initialized: false }
    }

    /// The sensor after its start-up sequence: usable exactly when that
    /// sequence succeeded.
    pub fn new<E>(init: Result<(), Lsm6dsoxError<E>>) -> (r: Lsm6dsoxSensor)
        ensures
            r.ready() == init.is_ok(),
    {
        Lsm6dsoxSensor { initialized: init.is_ok() }
    }

    /// Whether readings are taken.
    pub fn is_initialized(&self) -> (r: bool)
        ensures
            r == self.ready(),
    {
        self.initialized
    }

    /// Checks the device ID read at start-up.
    pub fn check_device_id<E>(id: u8) -> (r: Result<(), Lsm6dsoxError<E>>)
        ensures
            id == WHO_AM_I_VALUE ==> r is Ok,
            id != WHO_AM_I_VALUE ==> r is Err && r->Err_0 == Lsm6dsoxError::<E>::InvalidDeviceId(id),
    {
        if id != WHO_AM_I_VALUE {
            return Err(Lsm6dsoxError::InvalidDeviceId(id));
        }
        Ok(())
    }

    /// The register writes made after the ID check, in order: accelerometer
    /// 416 Hz ±16 g, gyroscope 416 Hz ±2000 dps, block data update.
    pub fn init_writes() -> (r: Vec<(u8, u8)>)
        ensures
            r@ == seq![(REG_CTRL1_XL, 0x64u8), (REG_CTRL2_G, 0x6Cu8), (REG_CTRL3_C, 0x04u8)],
    {
        let r = vec![(REG_CTRL1_XL, 0x64u8), (REG_CTRL2_G, 0x6Cu8), (REG_CTRL3_C, 0x04u8)];
        assert(r@ =~= seq![(REG_CTRL1_XL, 0x64u8), (REG_CTRL2_G, 0x6Cu8), (REG_CTRL3_C, 0x04u8)]);
        r
    }

    /// The presence check: the chip is there when reading its ID succeeds and
    /// gives the expected value.
    pub fn probe<E>(id: Result<u8, E>) -> (r: bool)
        ensures
            r == (id is Ok && id->Ok_0 == WHO_AM_I_VALUE),
    {
        match id {
            Ok(v) => v == WHO_AM_I_VALUE,
            Err(_) => false,
        }
    }

    /// Decodes the twelve bytes read from `REG_OUTX_L_G` on: gyroscope X, Y,
    /// Z then accelerometer X, Y, Z, each least significant byte first.
    pub fn decode(data: &[u8; 12]) -> (r: ImuCounts)
        ensures
            r.gyro == (Axes {
                x: i16_le(data@[0], data@[1]),
                y: i16_le(data@[2], data@[3]),
                z: i16_le(data@[4], data@[5]),
            }),
            r.accel == (Axes {
                x: i16_le(data@[6], data@[7]),
                y: i16_le(data@[8], data@[9]),
                z: i16_le(data@[10], data@[11]),
            }),
    {
        ImuCounts {
            gyro: Axes {
                x: read_i16_le(data[0], data[1]),
                y: read_i16_le(data[2], data[3]),
                z: read_i16_le(data[4], data[5]),
            },
            accel: Axes {
                x: read_i16_le(data[6], data[7]),
                y: read_i16_le(data[8], data[9]),
                z: read_i16_le(data[10], data[11]),
            },
        }
    }
}

} // verus!
