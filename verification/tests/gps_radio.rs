use fsw::gps::{
    bytes_to_read, calculate_checksum, configure_frames, i2c_result, probe, read_outcome, ubx_frame, GpsError,
};
use fsw::radio::{transmission, SyncScanner, SYNC_WORD_VALUE};

#[test]
fn ubx_checksum_is_fletcher_8() {
    assert_eq!(calculate_checksum(&[]), (0, 0));
    assert_eq!(calculate_checksum(&[1, 2, 3]), (6, 10));
    assert_eq!(calculate_checksum(&[0xFF, 0x02]), (0x01, 0x00));
}

#[test]
fn rate_configuration_frame() {
    let frame = ubx_frame(0x06, 0x08, &[0xE8, 0x03, 0x01, 0x00, 0x00, 0x00]);
    assert_eq!(frame, vec![0xB5, 0x62, 0x06, 0x08, 0x06, 0x00, 0xE8, 0x03, 0x01, 0x00, 0x00, 0x00, 0x00, 0x37]);
}

#[test]
fn configuration_sends_rate_then_nav_pvt() {
    let frames = configure_frames();
    assert_eq!(frames.len(), 2);
    assert_eq!(frames[0], ubx_frame(0x06, 0x08, &[0xE8, 0x03, 0x01, 0x00, 0x00, 0x00]));
    assert_eq!(
        frames[1],
        vec![0xB5, 0x62, 0x06, 0x01, 0x08, 0x00, 0x01, 0x07, 0x01, 0x00, 0x00, 0x00, 0x00, 0x00, 0x18, 0xE2]
    );
}

#[test]
fn empty_payload_frame() {
    assert_eq!(ubx_frame(0x0A, 0x04, &[]), vec![0xB5, 0x62, 0x0A, 0x04, 0x00, 0x00, 0x0E, 0x34]);
    let long = vec![0u8; 248];
    let f = ubx_frame(0x06, 0x01, &long);
    assert_eq!(f.len(), 256);
    assert_eq!(f[4], 248);
    assert_eq!(f[5], 0);
}

#[test]
fn read_size_is_capped() {
    assert_eq!(bytes_to_read([0x01, 0x2C], 255), 255);
    assert_eq!(bytes_to_read([0x00, 0x0A], 255), 10);
    assert_eq!(bytes_to_read([0x00, 0x64], 50), 50);
    assert_eq!(bytes_to_read([0x00, 0x00], 255), 0);
    assert_eq!(bytes_to_read([0xFF, 0xFF], 255), 0);
    assert_eq!(bytes_to_read([0xFF, 0xFE], 255), 255);
}

#[test]
fn read_outcome_needs_a_nav_pvt_message() {
    assert_eq!(read_outcome(0, true), Err(GpsError::NoData));
    assert_eq!(read_outcome(12, false), Err(GpsError::NoData));
    assert_eq!(read_outcome(100, true), Ok(()));
}

fn feed_all(bytes: &[u8]) -> Option<usize> {
    let mut s = SyncScanner::new();
    for (i, &b) in bytes.iter().enumerate() {
        if s.feed(b) {
            return Some(i);
        }
    }
    None
}

#[test]
fn sync_scanner_finds_the_word() {
    assert_eq!(SYNC_WORD_VALUE.to_le_bytes(), [0x67, 0x59, 0x5D, 0x3E]);
    assert_eq!(feed_all(&[0x67, 0x59, 0x5D, 0x3E, 0x00]), Some(3));
    assert_eq!(feed_all(&[0x67, 0x67, 0x59, 0x5D, 0x3E]), Some(4));
    assert_eq!(feed_all(&[0x67, 0x59, 0x00, 0x67, 0x59, 0x5D, 0x3E]), Some(6));
    assert_eq!(feed_all(&[0x59, 0x5D, 0x3E, 0x67, 0x59]), None);
}

#[test]
fn transmissions_start_with_the_sync_word() {
    assert_eq!(transmission(&[1, 2, 3]), vec![0x67, 0x59, 0x5D, 0x3E, 1, 2, 3]);
    assert_eq!(transmission(&[]), vec![0x67, 0x59, 0x5D, 0x3E]);
}

#[test]
fn bus_errors_are_i2c_errors() {
    assert_eq!(i2c_result::<u8, ()>(Ok(7)), Ok(7));
    assert_eq!(i2c_result::<u8, &str>(Err("nak")), Err(GpsError::I2cError));
    assert!(probe::<()>(Ok([0, 5])));
    assert!(!probe::<u8>(Err(1)));
}
