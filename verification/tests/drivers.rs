use fsw::driver::ads1015::{Ads1015Error, Ads1015Sensor};
use fsw::driver::ak09915::{Ak09915Error, Ak09915Sensor};
use fsw::driver::bmp390::{chip_connected, Bmp390Sensor};
use fsw::driver::icm42688::{Icm42688Error, Icm42688Sensor};
use fsw::driver::lsm6dsox::{Lsm6dsoxError, Lsm6dsoxSensor};
use fsw::driver::mmc56x3::{Mmc56x3Error, Mmc56x3Sensor};
use fsw::driver::{read_i16_be, read_i16_le, register_write_frame, Axes};

#[test]
fn signed_16_bit_decoding() {
    assert_eq!(read_i16_le(0x34, 0x12), 0x1234);
    assert_eq!(read_i16_le(0xFF, 0xFF), -1);
    assert_eq!(read_i16_le(0x00, 0x80), i16::MIN);
    assert_eq!(read_i16_be(0x12, 0x34), 0x1234);
    assert_eq!(read_i16_be(0xFF, 0xFE), -2);
    assert_eq!(register_write_frame(0x31, 0x10), [0x31, 0x10]);
}

#[test]
fn ads1015_channel_configuration() {
    assert_eq!(Ads1015Sensor::channel_config::<()>(0).ok(), Some(0xC383));
    assert_eq!(Ads1015Sensor::channel_config::<()>(1).ok(), Some(0xD383));
    assert_eq!(Ads1015Sensor::channel_config::<()>(3).ok(), Some(0xF383));
    assert!(matches!(Ads1015Sensor::channel_config::<()>(4), Err(Ads1015Error::InvalidChannel)));
}

#[test]
fn ads1015_register_frames() {
    assert_eq!(Ads1015Sensor::write_frame(0x01, 0xC383), [0x01, 0xC3, 0x83]);
    assert_eq!(Ads1015Sensor::register_value([0xC3, 0x83]), 0xC383);
}

#[test]
fn ads1015_conversion_poll() {
    assert!(matches!(Ads1015Sensor::poll::<()>(1, 0x8583), Ok(true)));
    assert!(matches!(Ads1015Sensor::poll::<()>(10, 0x8583), Ok(true)));
    assert!(matches!(Ads1015Sensor::poll::<()>(3, 0x0583), Ok(false)));
    assert!(matches!(Ads1015Sensor::poll::<()>(10, 0x0583), Err(Ads1015Error::ConversionTimeout)));
    assert!(matches!(Ads1015Sensor::poll::<()>(11, 0x0583), Err(Ads1015Error::ConversionTimeout)));
}

#[test]
fn ads1015_conversion_value_is_sign_extended() {
    assert_eq!(Ads1015Sensor::conversion_value(0x7FF0), 2047);
    assert_eq!(Ads1015Sensor::conversion_value(0x8000), -2048);
    assert_eq!(Ads1015Sensor::conversion_value(0xFFF0), -1);
    assert_eq!(Ads1015Sensor::conversion_value(0x0123), 0x12);
}

#[test]
fn ads1015_reads_only_when_initialized() {
    assert!(Ads1015Sensor::unavailable().packet_channels().is_empty());
    let ok = Ads1015Sensor::new::<()>(Ok(0x8583));
    assert!(ok.is_initialized());
    assert_eq!(ok.packet_channels(), vec![1, 2, 3]);
    let failed = Ads1015Sensor::new::<u8>(Err(Ads1015Error::I2c(7)));
    assert!(!failed.is_initialized());
    assert!(failed.packet_channels().is_empty());
}

#[test]
fn bus_errors_convert_into_driver_errors() {
    assert!(matches!(Ads1015Error::<u8>::from(3u8), Ads1015Error::I2c(3)));
    assert!(matches!(Ak09915Error::<u8>::from(4u8), Ak09915Error::I2c(4)));
    assert!(matches!(Icm42688Error::<u8>::from(5u8), Icm42688Error::I2c(5)));
    assert!(matches!(Lsm6dsoxError::<u8>::from(6u8), Lsm6dsoxError::I2c(6)));
    assert!(matches!(Mmc56x3Error::<u8>::from(7u8), Mmc56x3Error::I2c(7)));
}

#[test]
fn ak09915_decodes_axes_and_status() {
    let _sensor = Ak09915Sensor::new();
    assert!(Ak09915Sensor::data_ready(0x01));
    assert!(!Ak09915Sensor::data_ready(0x02));
    let ok = Ak09915Sensor::decode::<()>(&[0x10, 0x00, 0xFF, 0xFF, 0x00, 0x80, 0x55, 0x00]);
    assert_eq!(ok.ok(), Some(Axes { x: 16, y: -1, z: -32768 }));
    let overflow = Ak09915Sensor::decode::<()>(&[1, 2, 3, 4, 5, 6, 0, 0x08]);
    assert!(matches!(overflow, Err(Ak09915Error::MagneticSensorOverflow)));
    assert!(matches!(Ak09915Sensor::decode::<()>(&[0, 0, 0, 0, 0, 0, 0, 0x04]), Err(Ak09915Error::InvalidData)));
    assert!(matches!(Ak09915Sensor::decode::<()>(&[0, 0, 0, 0, 0, 0, 0, 0x0C]), Err(Ak09915Error::MagneticSensorOverflow)));
    assert_eq!(Ak09915Sensor::init_writes(), vec![(0x32, 0x01), (0x31, 0x10)]);
}

#[test]
fn icm42688_id_check_configuration_and_decoding() {
    let _sensor = Icm42688Sensor::new();
    assert!(Icm42688Sensor::check_device_id::<()>(0x47).is_ok());
    assert!(matches!(Icm42688Sensor::check_device_id::<()>(0x12), Err(Icm42688Error::InvalidDeviceId(0x12))));
    assert_eq!(Icm42688Sensor::init_writes(), vec![(0x4E, 0x2F), (0x50, 0x06), (0x4F, 0x06)]);
    let r = Icm42688Sensor::decode(&[0x08, 0x00, 0xF8, 0x00, 0x00, 0x01, 0x00, 0x10, 0xFF, 0xF0, 0x7F, 0xFF]);
    assert_eq!(r.accel, Axes { x: 2048, y: -2048, z: 1 });
    assert_eq!(r.gyro, Axes { x: 16, y: -16, z: 32767 });
}

#[test]
fn lsm6dsox_id_probe_and_decoding() {
    assert!(Lsm6dsoxSensor::check_device_id::<()>(0x6C).is_ok());
    assert!(matches!(Lsm6dsoxSensor::check_device_id::<()>(0x6B), Err(Lsm6dsoxError::InvalidDeviceId(0x6B))));
    assert!(Lsm6dsoxSensor::probe::<()>(Ok(0x6C)));
    assert!(!Lsm6dsoxSensor::probe::<()>(Ok(0x6B)));
    assert!(!Lsm6dsoxSensor::probe::<()>(Err(())));
    assert_eq!(Lsm6dsoxSensor::init_writes(), vec![(0x10, 0x64), (0x11, 0x6C), (0x12, 0x04)]);
    let r = Lsm6dsoxSensor::decode(&[0x10, 0x00, 0xF0, 0xFF, 0x01, 0x00, 0x00, 0x08, 0x00, 0xF8, 0xFF, 0x7F]);
    assert_eq!(r.gyro, Axes { x: 16, y: -16, z: 1 });
    assert_eq!(r.accel, Axes { x: 2048, y: -2048, z: 32767 });
    assert!(!Lsm6dsoxSensor::unavailable().is_initialized());
    assert!(Lsm6dsoxSensor::new::<()>(Ok(())).is_initialized());
    assert!(!Lsm6dsoxSensor::new::<u8>(Err(Lsm6dsoxError::InvalidDeviceId(0))).is_initialized());
}

#[test]
fn mmc56x3_twenty_bit_axes() {
    let _sensor = Mmc56x3Sensor::new();
    assert_eq!(Mmc56x3Sensor::axis(0x80, 0x00, 0x00), 0);
    assert_eq!(Mmc56x3Sensor::axis(0xFF, 0xFF, 0xF0), 524_287);
    assert_eq!(Mmc56x3Sensor::axis(0x00, 0x00, 0x00), -524_288);
    assert_eq!(Mmc56x3Sensor::axis(0x80, 0x01, 0x2F), 18);
    let r = Mmc56x3Sensor::decode(&[0x80, 0x00, 0x80, 0x01, 0x7F, 0xFF, 0x00, 0x20, 0xF0]);
    assert_eq!(r.x, 0);
    assert_eq!(r.y, 18);
    assert_eq!(r.z, -1);
    assert!(Mmc56x3Sensor::check_ready::<()>(0x01).is_ok());
    assert!(matches!(Mmc56x3Sensor::check_ready::<()>(0x02), Err(Mmc56x3Error::DataNotReady)));
    assert_eq!(Mmc56x3Sensor::init_writes(), vec![(0x1C, 0x01), (0x1A, 200), (0x1D, 0x10)]);
}

#[test]
fn bmp390_disconnect_check() {
    assert!(chip_connected(0x60));
    assert!(!chip_connected(0xFF));
    assert!(!chip_connected(0x00));
    assert!(Bmp390Sensor::new(true).is_init());
    assert!(!Bmp390Sensor::new(false).is_init());
    assert!(!Bmp390Sensor::unavailable().is_init());
}
