//! ICM-42688-P six-axis IMU: ±16 g and ±2000 °/s at 1 kHz, read as one
//! big-endian burst of accelerometer then gyroscope.

use vstd::prelude::*;
use crate::driver::{Axes, i16_be, read_i16_be};

verus! {

/// I2C address (AD0 grounded).
pub const ICM42688_ADDR: u8 = 0x68;
/// Device ID register.
pub const REG_WHO_AM_I: u8 = 0x75;
/// Power management.
pub const REG_PWR_MGMT0: u8 = 0x4E;
/// Gyroscope configuration.
pub const REG_GYRO_CONFIG0: u8 = 0x4F;
/// Accelerometer configuration.
pub const REG_ACCEL_CONFIG0: u8 = 0x50;
/// First data register (accelerometer X, high byte).
pub const REG_ACCEL_DATA_X1: u8 = 0x1F;
/// The device ID the chip reports.
pub const WHO_AM_I_VALUE: u8 = 0x47;
/// Temperature sensor on, gyroscope and accelerometer in low-noise mode.
pub const PWR_CONFIG: u8 = 0x2F;
/// ±16 g full scale, 1 kHz output rate.
pub const ACCEL_CONFIG: u8 = 0x06;
/// ±2000 °/s full scale, 1 kHz output rate.
pub const GYRO_CONFIG: u8 = 0x06;

/// ICM-42688-P errors.
#[derive(Debug)]
pub enum Icm42688Error<E> {
    I2c(E),
    InvalidDeviceId(u8),
}

impl<E> From<E> for Icm42688Error<E> {
    fn from(error: E) -> (r: Self) {
        Icm42688Error::I2c(error)
    }
}

impl<E> vstd::std_specs::convert::FromSpecImpl<E> for Icm42688Error<E> {
    open spec fn obeys_from_spec() -> bool {
        true
    }

    open spec fn from_spec(error: E) -> Self {
        Icm42688Error::I2c(error)
    }
}

/// One reading: accelerometer and gyroscope counts.
#[derive(Clone, Copy, Debug, PartialEq, Eq, Structural)]
pub struct ImuCounts {
    pub accel: Axes,
    pub gyro: Axes,
}

/// The ICM-42688-P driver.
pub struct Icm42688Sensor {}

impl Icm42688Sensor {
    /// The driver.
    pub fn new() -> (r: Icm42688Sensor) {
        Icm42688Sensor {}
    }

    /// Checks the device ID read at start-up.
    pub fn check_device_id<E>(id: u8) -> (r: Result<(), Icm42688Error<E>>)
        ensures
            id == WHO_AM_I_VALUE ==> r is Ok,
            id != WHO_AM_I_VALUE ==> r is Err && r->Err_0 == Icm42688Error::<E>::InvalidDeviceId(id),
    {
        if id != WHO_AM_I_VALUE {
            return Err(Icm42688Error::InvalidDeviceId(id));
        }
        Ok(())
    }

    /// The register writes made after the ID check, in order: power
    /// management, accelerometer, gyroscope.
    pub fn init_writes() -> (r: Vec<(u8, u8)>)
        ensures
            r@ == seq![(REG_PWR_MGMT0, PWR_CONFIG), (REG_ACCEL_CONFIG0, ACCEL_CONFIG), (REG_GYRO_CONFIG0, GYRO_CONFIG)],
    {
        let r = vec![(REG_PWR_MGMT0, PWR_CONFIG), (REG_ACCEL_CONFIG0, ACCEL_CONFIG), (REG_GYRO_CONFIG0, GYRO_CONFIG)];
        assert(r@ =~= seq![(REG_PWR_MGMT0, PWR_CONFIG), (REG_ACCEL_CONFIG0, ACCEL_CONFIG), (REG_GYRO_CONFIG0, GYRO_CONFIG)]);
        r
    }

    /// Decodes the twelve bytes read from `REG_ACCEL_DATA_X1` on:
    /// accelerometer X, Y, Z then gyroscope X, Y, Z, each most significant
    /// byte first.
    pub fn decode(data: &[u8; 12]) -> (r: ImuCounts)
        ensures
            r.accel == (Axes {
                x: i16_be(data@[0], data@[1]),
                y: i16_be(data@[2], data@[3]),
                z: i16_be(data@[4], data@[5]),
            }),
            r.gyro == (Axes {
                x: i16_be(data@[6], data@[7]),
                y: i16_be(data@[8], data@[9]),
                z: i16_be(data@[10], data@[11]),
            }),
    {
        ImuCounts {
            accel: Axes {
                x: read_i16_be(data[0], data[1]),
                y: read_i16_be(data[2], data[3]),
                z: read_i16_be(data[4], data[5]),
            },
            gyro: Axes {
                x: read_i16_be(data[6], data[7]),
                y: read_i16_be(data[8], data[9]),
                z: read_i16_be(data[10], data[11]),
            },
        }
    }
}

} // verus!
