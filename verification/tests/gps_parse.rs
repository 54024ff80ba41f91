use fsw::gps::{
    decode_nav_pvt, gps_update, read_into_packet, ubx_frame, GpsError, NavPvtRaw, UbxItem, UbxStream,
};
use fsw::packet::Packet;

fn put_u32(p: &mut [u8], at: usize, v: u32) {
    p[at..at + 4].copy_from_slice(&v.to_le_bytes());
}

fn nav_pvt_payload() -> Vec<u8> {
    let mut p = vec![0u8; 92];
    p[8] = 13;
    p[9] = 45;
    p[10] = 30;
    p[20] = 3;
    p[23] = 11;
    put_u32(&mut p, 24, (-764_000_000i32) as u32);
    put_u32(&mut p, 28, 424_400_000);
    put_u32(&mut p, 40, 2_500);
    put_u32(&mut p, 44, 4_000);
    put_u32(&mut p, 48, (-1_200i32) as u32);
    put_u32(&mut p, 52, 300);
    put_u32(&mut p, 56, (-5_000i32) as u32);
    put_u32(&mut p, 60, 1_237);
    put_u32(&mut p, 64, 9_000_000);
    put_u32(&mut p, 68, 150);
    put_u32(&mut p, 72, 250_000);
    p
}

fn expected_fix() -> NavPvtRaw {
    NavPvtRaw {
        hour: 13,
        min: 45,
        sec: 30,
        fix_type: 3,
        num_satellites: 11,
        lon: -764_000_000,
        lat: 424_400_000,
        h_acc: 2_500,
        v_acc: 4_000,
        vel_n: -1_200,
        vel_e: 300,
        vel_d: -5_000,
        g_speed: 1_237,
        head_mot: 9_000_000,
        s_acc: 150,
        head_acc: 250_000,
    }
}

#[test]
fn nav_pvt_fields_are_read_at_their_offsets() {
    assert_eq!(decode_nav_pvt(&nav_pvt_payload()), expected_fix());
}

#[test]
fn a_nav_pvt_message_updates_the_packet() {
    let frame = ubx_frame(0x01, 0x07, &nav_pvt_payload());
    let mut stream = UbxStream::new();
    let mut packet = Packet::default();
    packet.pressure = 77;
    let (fix, outcome) = read_into_packet(&mut stream, &frame, &mut packet);
    assert_eq!(outcome, Ok(()));
    assert_eq!(fix, Some(expected_fix()));
    assert_eq!(packet.num_satellites, 11);
    assert_eq!(packet.fix_type, 3);
    assert_eq!(packet.h_acc, 2_500);
    assert_eq!(packet.v_acc, 4_000);
    assert_eq!(packet.s_acc, 150);
    assert_eq!(packet.head_acc, 250_000);
    assert_eq!(packet.head_mot, 9_000_000);
    assert_eq!(packet.pressure, 77);
}

#[test]
fn a_message_split_across_reads_is_completed() {
    let frame = ubx_frame(0x01, 0x07, &nav_pvt_payload());
    let mut stream = UbxStream::new();
    let mut packet = Packet::default();
    let (fix, outcome) = read_into_packet(&mut stream, &frame[..40], &mut packet);
    assert_eq!(fix, None);
    assert_eq!(outcome, Err(GpsError::NoData));
    assert_eq!(packet, Packet::default());
    let (fix, outcome) = read_into_packet(&mut stream, &frame[40..], &mut packet);
    assert_eq!(outcome, Ok(()));
    assert_eq!(fix, Some(expected_fix()));
}

#[test]
fn nothing_read_is_no_data() {
    let mut stream = UbxStream::new();
    let mut packet = Packet::default();
    let (fix, outcome) = read_into_packet(&mut stream, &[], &mut packet);
    assert_eq!(fix, None);
    assert_eq!(outcome, Err(GpsError::NoData));
    assert_eq!(packet, Packet::default());
}

#[test]
fn other_messages_are_no_data() {
    let frame = ubx_frame(0x06, 0x08, &[0xE8, 0x03, 0x01, 0x00, 0x01, 0x00]);
    let mut stream = UbxStream::new();
    let mut packet = Packet::default();
    let (fix, outcome) = read_into_packet(&mut stream, &frame, &mut packet);
    assert_eq!(fix, None);
    assert_eq!(outcome, Err(GpsError::NoData));
    assert_eq!(packet, Packet::default());
}

#[test]
fn the_last_solution_of_a_read_wins() {
    let mut second = expected_fix();
    second.num_satellites = 4;
    let items = [UbxItem::NavPvt(expected_fix()), UbxItem::Malformed, UbxItem::NavPvt(second), UbxItem::Other];
    assert_eq!(gps_update(100, &items), (Some(second), Ok(())));
    assert_eq!(gps_update(100, &[UbxItem::Other, UbxItem::Malformed]), (None, Err(GpsError::NoData)));
    assert_eq!(gps_update(0, &items), (None, Err(GpsError::NoData)));
}
