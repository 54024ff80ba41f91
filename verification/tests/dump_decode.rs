use fsw::dump::{
    begin_marker, decode_binary, end_marker, end_marker_cut, i32le, log_rows, row_values, scan_for_begin,
    u32le, valve_bytes, LogRecord, RecordKind, SlowFields,
};
use fsw::flash::{encode_fast_record, encode_full_record};
use fsw::packet::{FastRecord, Packet};

fn full_packet(lat: f32, ms: u32) -> Packet {
    let mut p = Packet::default();
    p.flight_mode = 2;
    p.latitude = lat.to_bits();
    p.longitude = (-76.0f32).to_bits();
    p.num_satellites = 11;
    p.vel_n = 3.5f64.to_bits();
    p.head_mot = 9_000_000;
    p.blims_pid_p = 0.5f32.to_bits();
    p.ms_since_boot_cfc = ms;
    p
}

#[test]
fn markers_are_the_dump_framing_text() {
    assert_eq!(begin_marker(), b"BEGIN FLASH BINARY DUMP".to_vec());
    assert_eq!(end_marker(), b"END FLASH BINARY DUMP".to_vec());
}

#[test]
fn little_endian_readers() {
    let b = [0x78, 0x56, 0x34, 0x12, 0xFF, 0xFF, 0xFF, 0xFF];
    assert_eq!(u32le(&b, 0), 0x1234_5678);
    assert_eq!(i32le(&b, 4), -1);
    assert_eq!(u32le(&b, 4), u32::MAX);
}

#[test]
fn appended_records_decode_in_order() {
    let p = full_packet(42.5, 100);
    let mut f = FastRecord::from_packet(&p);
    f.ms_since_boot_cfc = 120;
    let mut log = Vec::new();
    log.extend(encode_full_record(&p));
    log.extend(encode_fast_record(&f));
    log.extend(encode_fast_record(&f));
    log.extend([0xFF; 32]);
    let d = decode_binary(&log);
    assert_eq!(d.records.len(), 3);
    assert_eq!(d.full_count, 1);
    assert_eq!(d.fast_count, 2);
    assert_eq!(d.skipped, 0);
    assert_eq!(d.records[0].kind, RecordKind::Full);
    assert_eq!(d.records[0].payload, p.to_bytes().to_vec());
    assert_eq!(d.records[1].kind, RecordKind::Fast);
    assert_eq!(d.records[2].payload, f.to_bytes().to_vec());
}

#[test]
fn unknown_bytes_are_skipped_and_erased_flash_ends_the_log() {
    let p = full_packet(1.0, 5);
    let mut log = vec![0x00, 0x41];
    log.extend(encode_full_record(&p));
    log.push(0x13);
    log.push(0xFF);
    log.extend(encode_full_record(&p));
    let d = decode_binary(&log);
    assert_eq!(d.records.len(), 1);
    assert_eq!(d.skipped, 3);
    assert_eq!(d.full_count, 1);
}

#[test]
fn truncated_record_ends_the_log() {
    let p = full_packet(1.0, 5);
    let mut log = encode_full_record(&p);
    log.extend(&encode_full_record(&p)[..100]);
    let d = decode_binary(&log);
    assert_eq!(d.records.len(), 1);
    let empty = decode_binary(&[]);
    assert_eq!(empty.records.len(), 0);
    assert_eq!(empty.skipped, 0);
}

#[test]
fn fast_rows_carry_the_last_full_record_forward() {
    let p = full_packet(42.5, 100);
    let mut f = FastRecord::from_packet(&p);
    f.ms_since_boot_cfc = 130;
    f.altitude = 55.0f32.to_bits();

    let mut slow = SlowFields::default();
    let early = row_values(&LogRecord { kind: RecordKind::Fast, payload: f.to_bytes().to_vec() }, &mut slow);
    assert_eq!(early.latitude, 0);
    assert_eq!(early.num_satellites, 0);
    assert_eq!(early.ms_since_boot_cfc, 130);

    let row = row_values(&LogRecord { kind: RecordKind::Full, payload: p.to_bytes().to_vec() }, &mut slow);
    assert_eq!(row, p);
    assert_eq!(slow.latitude, 42.5f32.to_bits());
    assert_eq!(slow.head_mot, 9_000_000);

    let later = row_values(&LogRecord { kind: RecordKind::Fast, payload: f.to_bytes().to_vec() }, &mut slow);
    assert_eq!(later.latitude, 42.5f32.to_bits());
    assert_eq!(later.num_satellites, 11);
    assert_eq!(later.vel_n, 3.5f64.to_bits());
    assert_eq!(later.blims_pid_p, 0.5f32.to_bits());
    assert_eq!(later.altitude, 55.0f32.to_bits());
    assert_eq!(later.ms_since_boot_cfc, 130);
}

#[test]
fn begin_marker_line_starts_the_dump() {
    let mut line = Vec::new();
    assert!(!scan_for_begin(&mut line, b"boot ok\r\nBEGIN FL"));
    assert_eq!(line, b"BEGIN FL".to_vec());
    assert!(scan_for_begin(&mut line, b"ASH BINARY DUMP\r\n\xFA\x00"));
    assert!(line.is_empty());
    let mut other = Vec::new();
    assert!(!scan_for_begin(&mut other, b"END FLASH BINARY DUMP\n"));
    assert!(other.is_empty());
}

#[test]
fn end_marker_cut_trims_the_marker_line() {
    let buf = b"\xFA\x01\x02\nEND FLASH BINARY DUMP\r\n";
    assert_eq!(end_marker_cut(buf, 0), Some(4));
    let glued = b"\xFB\x09END FLASH BINARY DUMP";
    assert_eq!(end_marker_cut(glued, 0), Some(2));
    assert_eq!(end_marker_cut(b"no marker here\n", 0), None);
    assert_eq!(end_marker_cut(buf, 5), None);
}

#[test]
fn log_rows_carry_slow_fields_across_the_log() {
    let first = full_packet(10.0, 1);
    let second = full_packet(20.0, 3);
    let mut f = FastRecord::from_packet(&first);
    let mut log = Vec::new();
    f.ms_since_boot_cfc = 0;
    log.extend(encode_fast_record(&f));
    log.extend(encode_full_record(&first));
    f.ms_since_boot_cfc = 2;
    log.extend(encode_fast_record(&f));
    log.extend(encode_full_record(&second));
    f.ms_since_boot_cfc = 4;
    log.extend(encode_fast_record(&f));
    let d = decode_binary(&log);
    let rows = log_rows(&d.records);
    assert_eq!(rows.len(), 5);
    assert_eq!(rows[0].latitude, 0);
    assert_eq!(rows[1], first);
    assert_eq!(rows[2].latitude, 10.0f32.to_bits());
    assert_eq!(rows[2].ms_since_boot_cfc, 2);
    assert_eq!(rows[3], second);
    assert_eq!(rows[4].latitude, 20.0f32.to_bits());
    assert_eq!(rows[4].ms_since_boot_cfc, 4);
}

#[test]
fn valve_bytes_are_kept_as_stored() {
    let mut payload = full_packet(1.0, 1).to_bytes().to_vec();
    payload[80] = 2;
    payload[81] = 0;
    let full = LogRecord { kind: RecordKind::Full, payload };
    assert_eq!(valve_bytes(&full), (2, 0));
    let mut slow = SlowFields::default();
    let row = row_values(&full, &mut slow);
    assert!(row.sv_open);
    let mut fast_payload = FastRecord::from_packet(&full_packet(1.0, 1)).to_bytes().to_vec();
    fast_payload[68] = 0;
    fast_payload[69] = 7;
    assert_eq!(valve_bytes(&LogRecord { kind: RecordKind::Fast, payload: fast_payload }), (0, 7));
}

#[test]
fn decode_accounts_for_every_record_byte() {
    let p = full_packet(3.0, 9);
    let f = FastRecord::from_packet(&p);
    let mut log = vec![0x01, 0x02];
    log.extend(encode_fast_record(&f));
    log.extend(encode_full_record(&p));
    log.push(0x33);
    log.extend(encode_fast_record(&f));
    log.extend([0xFF; 10]);
    let d = decode_binary(&log);
    assert_eq!(d.fast_count, 2);
    assert_eq!(d.full_count, 1);
    assert_eq!(d.skipped, 3);
    assert_eq!(d.records.len(), d.fast_count + d.full_count);
    assert_eq!(93 * d.fast_count + 194 * d.full_count + d.skipped, log.len() - 10);
}
