use fsw::packet::{
    FastRecord, Packet, CSV_HEADER, FAST_RECORD_SIZE, FAST_RECORD_TAG, FULL_RECORD_TAG, PACKET_SIZE,
    TELEM_FIELD_COUNT,
};

fn sample_packet() -> Packet {
    let mut p = Packet::default();
    p.flight_mode = 3;
    p.pressure = 101325.0f32.to_bits();
    p.temp = 21.5f32.to_bits();
    p.altitude = 1234.5f32.to_bits();
    p.latitude = 42.4534f32.to_bits();
    p.longitude = (-76.4735f32).to_bits();
    p.num_satellites = 9;
    p.timestamp = 43210.0f32.to_bits();
    p.mag_x = 1.0f32.to_bits();
    p.accel_z = 9.81f32.to_bits();
    p.gyro_y = (-2.5f32).to_bits();
    p.pt3 = 500.0f32.to_bits();
    p.sv_open = true;
    p.mav_open = false;
    p.ssa_drogue_deployed = 1;
    p.cmd_a3 = 7;
    p.airbrake_deployment = 0.25f32.to_bits();
    p.predicted_apogee = 3048.0f32.to_bits();
    p.h_acc = 1500;
    p.v_acc = 2500;
    p.vel_n = 1.25f64.to_bits();
    p.vel_d = (-30.5f64).to_bits();
    p.g_speed = 12.0f64.to_bits();
    p.fix_type = 3;
    p.head_mot = -12_345_678;
    p.blims_brakeline_diff = (-3.0f32).to_bits();
    p.blims_phase_id = -1;
    p.blims_wind_from_deg = 270.0f32.to_bits();
    p.ms_since_boot_cfc = 987_654;
    p
}

#[test]
fn packet_sizes_and_tags() {
    assert_eq!(PACKET_SIZE, 193);
    assert_eq!(FAST_RECORD_SIZE, 92);
    assert_eq!(FAST_RECORD_TAG, 0xFA);
    assert_eq!(FULL_RECORD_TAG, 0xFB);
}

#[test]
fn csv_header_has_one_column_per_field() {
    assert_eq!(CSV_HEADER.trim_end().split(',').count(), TELEM_FIELD_COUNT);
    assert!(CSV_HEADER.starts_with("flight_mode,pressure,temp,altitude,"));
    assert!(CSV_HEADER.ends_with("blims_wind_from_deg,ms_since_boot_cfc\n"));
}

#[test]
fn packet_layout_offsets() {
    let p = sample_packet();
    let b = p.to_bytes();
    assert_eq!(&b[0..4], &3u32.to_le_bytes());
    assert_eq!(&b[4..8], &101325.0f32.to_le_bytes());
    assert_eq!(&b[16..20], &42.4534f32.to_le_bytes());
    assert_eq!(&b[24..28], &9u32.to_le_bytes());
    assert_eq!(b[80], 1);
    assert_eq!(b[81], 0);
    assert_eq!(b[82], 1);
    assert_eq!(b[90], 7);
    assert_eq!(&b[91..95], &0.25f32.to_le_bytes());
    assert_eq!(&b[99..103], &1500u32.to_le_bytes());
    assert_eq!(&b[107..115], &1.25f64.to_le_bytes());
    assert_eq!(&b[123..131], &(-30.5f64).to_le_bytes());
    assert_eq!(b[147], 3);
    assert_eq!(&b[148..152], &(-12_345_678i32).to_le_bytes());
    assert_eq!(b[156], 0xFF);
    assert_eq!(&b[185..189], &270.0f32.to_le_bytes());
    assert_eq!(&b[189..193], &987_654u32.to_le_bytes());
}

#[test]
fn packet_roundtrip() {
    let p = sample_packet();
    let q = Packet::from_bytes(&p.to_bytes());
    assert_eq!(p, q);
    assert_eq!(f32::from_bits(q.pressure), 101325.0);
    assert_eq!(f64::from_bits(q.vel_d), -30.5);
}

#[test]
fn packet_from_short_buffer_is_default() {
    let p = sample_packet();
    let b = p.to_bytes();
    let q = Packet::from_bytes(&b[..192]);
    assert_eq!(q, Packet::default());
}

#[test]
fn packet_flag_bytes_read_nonzero_as_set() {
    let mut b = Packet::default().to_bytes();
    b[80] = 2;
    b[81] = 0;
    let q = Packet::from_bytes(&b);
    assert!(q.sv_open);
    assert!(!q.mav_open);
}

#[test]
fn fast_record_layout_and_roundtrip() {
    let p = sample_packet();
    let f = FastRecord::from_packet(&p);
    assert_eq!(f.ms_since_boot_cfc, 987_654);
    assert_eq!(f.pressure, p.pressure);
    assert_eq!(f.blims_phase_id, -1);
    let b = f.to_bytes();
    assert_eq!(&b[0..4], &987_654u32.to_le_bytes());
    assert_eq!(&b[4..8], &3u32.to_le_bytes());
    assert_eq!(&b[8..12], &101325.0f32.to_le_bytes());
    assert_eq!(b[68], 1);
    assert_eq!(b[69], 0);
    assert_eq!(b[78], 7);
    assert_eq!(&b[79..83], &0.25f32.to_le_bytes());
    assert_eq!(&b[87..91], &(-3.0f32).to_le_bytes());
    assert_eq!(b[91], 0xFF);
    let g = FastRecord::from_bytes(&b);
    assert_eq!(f, g);
}

#[test]
fn fast_record_mirrors_packet_bytes() {
    let p = sample_packet();
    let pb = p.to_bytes();
    let fb = FastRecord::from_packet(&p).to_bytes();
    // sensors: packet 0..4 is flight_mode, fast 4..8
    assert_eq!(&fb[4..8], &pb[0..4]);
    // pressure .. altitude
    assert_eq!(&fb[8..20], &pb[4..16]);
    // mag .. rtd
    assert_eq!(&fb[20..68], &pb[32..80]);
    // flags and commands
    assert_eq!(&fb[68..79], &pb[80..91]);
    // airbrake and apogee
    assert_eq!(&fb[79..87], &pb[91..99]);
}
