use fsw::flash::{
    chip_present, command_frame, page_erased, status_ready, wipe_progress_due, AppendChunk,
    Error, LatestSnapshot, LogScan, OnboardFlash, RingScan, Snapshot, encode_fast_record,
    encode_full_record, CMD_PAGE_PROG, PAGE_SIZE, SNAPSHOT_RING_BASE, SNAPSHOT_SLOT_COUNT,
    STORAGE_END, STORAGE_OFFSET, STORAGE_SIZE,
};
use fsw::packet::{FastRecord, Packet};

#[test]
fn command_frame_is_command_then_big_endian_address() {
    assert_eq!(command_frame(CMD_PAGE_PROG, 0x12_3456), [0x02, 0x12, 0x34, 0x56]);
    assert_eq!(command_frame(0x20, 0x20_0000), [0x20, 0x20, 0x00, 0x00]);
}

#[test]
fn status_and_presence() {
    assert!(status_ready(0x00));
    assert!(!status_ready(0x01));
    assert!(status_ready(0xFE));
    assert!(!chip_present(&[0xFF, 0xFF, 0xFF]));
    assert!(chip_present(&[0xEF, 0x40, 0x18]));
    assert!(chip_present(&[0xFF, 0xFF, 0x00]));
}

#[test]
fn erased_page_detection() {
    assert!(page_erased(&[0xFF; 256]));
    let mut page = [0xFFu8; 256];
    page[200] = 0xFE;
    assert!(!page_erased(&page));
    assert!(page_erased(&[]));
}

#[test]
fn snapshot_checksum_value() {
    // a: 1, 3, 6; s: 1, 4, 10
    assert_eq!(Snapshot::crc(&[1, 2, 3]), (10u32 << 16) ^ 6);
    assert_eq!(Snapshot::crc(&[]), 0);
}

fn sample_snapshot() -> Snapshot {
    let mut s = Snapshot::default();
    s.seq = 42;
    s.flight_mode = 4;
    s.cycle_count = 123_456;
    s.pressure = 90_000.0f32.to_bits();
    s.altitude = 812.5f32.to_bits();
    s.mav_open = 1;
    s.launch_elapsed_ms = 15_000;
    s.blims_downwind_lon = (-76.5f32).to_bits();
    s
}

#[test]
fn snapshot_record_layout_and_roundtrip() {
    let s = sample_snapshot();
    let b = s.to_bytes();
    assert_eq!(b[0], 0x5A);
    assert_eq!(b[1], 0xA5);
    assert_eq!(&b[2..6], &42u32.to_le_bytes());
    assert_eq!(&b[10..14], &123_456u32.to_le_bytes());
    assert_eq!(&b[58..62], &Snapshot::crc(&b[0..58]).to_le_bytes());
    assert_eq!(b[62], 0xFF);
    assert_eq!(b[63], 0xFF);
    assert_eq!(Snapshot::from_bytes(&b), Some(s));
}

#[test]
fn snapshot_corruption_is_rejected() {
    let s = sample_snapshot();
    let mut b = s.to_bytes();
    b[20] ^= 0x01;
    assert_eq!(Snapshot::from_bytes(&b), None);
    let mut c = s.to_bytes();
    c[0] = 0x00;
    assert_eq!(Snapshot::from_bytes(&c), None);
    assert_eq!(Snapshot::from_bytes(&[0xFF; 64]), None);
}

#[test]
fn new_driver_state() {
    let f = OnboardFlash::new();
    assert_eq!(f.get_write_offset(), STORAGE_OFFSET);
    assert_eq!(f.get_storage_offset(), 0x20_0000);
    assert_eq!(f.get_usage(), (0, STORAGE_SIZE));
    assert_eq!(f.snapshot_offset(), SNAPSHOT_RING_BASE);
    assert_eq!(f.snapshot_next_seq(), 1);
    assert!(!f.flash_ok);
    assert!(!f.storage_full);
}

fn run_log_scan(boundary: u32) -> u32 {
    let mut scan = LogScan::new();
    loop {
        match scan.probe() {
            None => return scan.end(),
            Some(page) => {
                if let Some(end) = scan.observe(page >= boundary) {
                    return end;
                }
            }
        }
    }
}

#[test]
fn log_scan_finds_first_erased_page() {
    for boundary in [
        STORAGE_OFFSET,
        STORAGE_OFFSET + PAGE_SIZE,
        STORAGE_OFFSET + 37 * PAGE_SIZE,
        0x80_0000,
        STORAGE_END - PAGE_SIZE,
        STORAGE_END,
    ] {
        assert_eq!(run_log_scan(boundary), boundary);
    }
}

#[test]
fn finish_log_scan_reports_full_log() {
    let mut f = OnboardFlash::new();
    assert_eq!(f.finish_log_scan(STORAGE_OFFSET + 1000), Ok(()));
    assert_eq!(f.get_write_offset(), STORAGE_OFFSET + 1000);
    assert_eq!(f.get_usage(), (1000, STORAGE_SIZE));
    assert_eq!(f.finish_log_scan(STORAGE_END), Err(Error::StorageFull));
}

#[test]
fn plan_append_splits_at_pages_and_erases_sectors() {
    let f = OnboardFlash::new();
    let plan = f.plan_append(300).unwrap();
    assert_eq!(
        plan,
        vec![
            AppendChunk { erase_first: true, addr: 0x20_0000, start: 0, len: 256 },
            AppendChunk { erase_first: false, addr: 0x20_0100, start: 256, len: 44 },
        ]
    );
    let mut g = OnboardFlash::new();
    g.finish_log_scan(0x20_00F0).unwrap();
    let plan = g.plan_append(20).unwrap();
    assert_eq!(
        plan,
        vec![
            AppendChunk { erase_first: false, addr: 0x20_00F0, start: 0, len: 16 },
            AppendChunk { erase_first: false, addr: 0x20_0100, start: 16, len: 4 },
        ]
    );
    assert!(f.plan_append(0).unwrap().is_empty());
}

#[test]
fn plan_append_crossing_a_sector() {
    let mut f = OnboardFlash::new();
    f.finish_log_scan(STORAGE_OFFSET + 4096 - 10).unwrap();
    let plan = f.plan_append(20).unwrap();
    assert_eq!(plan.len(), 2);
    assert!(!plan[0].erase_first);
    assert_eq!(plan[1].addr, STORAGE_OFFSET + 4096);
    assert!(plan[1].erase_first);
    f.advance_write_offset(20);
    assert_eq!(f.get_write_offset(), STORAGE_OFFSET + 4096 + 10);
}

#[test]
fn plan_append_refuses_overflow() {
    let mut f = OnboardFlash::new();
    f.finish_log_scan(STORAGE_END - 10).unwrap();
    assert_eq!(f.plan_append(11), Err(Error::StorageFull));
    assert_eq!(f.plan_append(10).unwrap().len(), 1);
}

#[test]
fn encoded_records_are_tagged() {
    let p = Packet::default();
    let full = encode_full_record(&p);
    assert_eq!(full.len(), 194);
    assert_eq!(full[0], 0xFB);
    assert_eq!(&full[1..], &p.to_bytes()[..]);
    let fast = FastRecord::from_packet(&p);
    let r = encode_fast_record(&fast);
    assert_eq!(r.len(), 93);
    assert_eq!(r[0], 0xFA);
    assert_eq!(&r[1..], &fast.to_bytes()[..]);
}

fn slot_record(seq: u32) -> [u8; 64] {
    let mut s = Snapshot::default();
    s.seq = seq;
    s.to_bytes()
}

#[test]
fn ring_scan_resumes_after_newest_record() {
    let mut f = OnboardFlash::new();
    let mut scan = RingScan::new();
    for slot in 0..SNAPSHOT_SLOT_COUNT {
        let rec = match slot {
            3 => slot_record(5),
            7 => slot_record(9),
            8 => slot_record(2),
            _ => [0xFF; 64],
        };
        scan.observe(slot, &rec);
    }
    f.finish_ring_scan(&scan);
    assert_eq!(f.snapshot_offset(), SNAPSHOT_RING_BASE + 8 * 64);
    assert_eq!(f.snapshot_next_seq(), 10);
}

#[test]
fn ring_scan_of_empty_ring_starts_at_base() {
    let mut f = OnboardFlash::new();
    let mut scan = RingScan::new();
    for slot in 0..16 {
        scan.observe(slot, &[0xFF; 64]);
    }
    f.finish_ring_scan(&scan);
    assert_eq!(f.snapshot_offset(), SNAPSHOT_RING_BASE);
    assert_eq!(f.snapshot_next_seq(), 1);
}

#[test]
fn ring_scan_newest_in_last_slot_wraps() {
    let mut f = OnboardFlash::new();
    let mut scan = RingScan::new();
    scan.observe(SNAPSHOT_SLOT_COUNT - 1, &slot_record(77));
    f.finish_ring_scan(&scan);
    assert_eq!(f.snapshot_offset(), SNAPSHOT_RING_BASE);
    assert_eq!(f.snapshot_next_seq(), 78);
}

#[test]
fn latest_snapshot_picks_highest_valid_sequence() {
    let mut latest = LatestSnapshot::new();
    latest.observe(&slot_record(3));
    latest.observe(&slot_record(7));
    let mut corrupt = slot_record(9);
    corrupt[30] ^= 0x40;
    latest.observe(&corrupt);
    latest.observe(&slot_record(4));
    latest.observe(&[0xFF; 64]);
    assert_eq!(latest.best().map(|s| s.seq), Some(7));
    assert!(LatestSnapshot::new().best().is_none());
}

#[test]
fn snapshot_write_stamps_and_advances() {
    let mut f = OnboardFlash::new();
    let mut snap = sample_snapshot();
    let w = f.prepare_snapshot_write(&mut snap);
    assert_eq!(snap.seq, 1);
    assert_eq!(w.addr, SNAPSHOT_RING_BASE);
    assert!(w.erase_sector);
    assert_eq!(Snapshot::from_bytes(&w.record), Some(snap));
    f.complete_snapshot_write();
    assert_eq!(f.snapshot_offset(), SNAPSHOT_RING_BASE + 64);
    assert_eq!(f.snapshot_next_seq(), 2);
    let w2 = f.prepare_snapshot_write(&mut snap);
    assert!(!w2.erase_sector);
    assert_eq!(snap.seq, 2);
}

#[test]
fn snapshot_cursor_wraps_around_the_ring() {
    let mut f = OnboardFlash::new();
    for _ in 0..SNAPSHOT_SLOT_COUNT {
        f.complete_snapshot_write();
    }
    assert_eq!(f.snapshot_offset(), SNAPSHOT_RING_BASE);
    assert_eq!(f.snapshot_next_seq(), SNAPSHOT_SLOT_COUNT + 1);
    f.reset_snapshot_cursor();
    assert_eq!(f.snapshot_next_seq(), 1);
}

#[test]
fn ring_and_wipe_sectors() {
    let ring = OnboardFlash::snapshot_ring_sectors();
    assert_eq!(ring.len(), 16);
    assert_eq!(ring[0], SNAPSHOT_RING_BASE);
    assert_eq!(ring[15], SNAPSHOT_RING_BASE + 15 * 4096);
    let mut f = OnboardFlash::new();
    assert!(f.wipe_sectors().is_empty());
    f.finish_log_scan(STORAGE_OFFSET + 4097).unwrap();
    assert_eq!(f.wipe_sectors(), vec![STORAGE_OFFSET, STORAGE_OFFSET + 4096]);
    f.finish_wipe();
    assert_eq!(f.get_write_offset(), STORAGE_OFFSET);
}

#[test]
fn wipe_progress_every_sixteen_and_at_end() {
    assert!(wipe_progress_due(16, 100));
    assert!(!wipe_progress_due(17, 100));
    assert!(wipe_progress_due(100, 100));
    assert!(wipe_progress_due(0, 5));
}

#[test]
fn spi_errors_are_reported_as_spi() {
    assert_eq!(fsw::flash::spi_result::<u32, ()>(Ok(5)), Ok(5));
    assert_eq!(fsw::flash::spi_result::<u32, &str>(Err("bus")), Err(Error::Spi));
}

#[test]
fn every_single_bit_flip_is_rejected() {
    let b = sample_snapshot().to_bytes();
    for i in 0..62 {
        for bit in 0..8 {
            let mut c = b;
            c[i] ^= 1u8 << bit;
            assert_eq!(Snapshot::from_bytes(&c), None, "byte {} bit {}", i, bit);
        }
    }
}

#[test]
fn latest_snapshot_takes_the_first_of_equal_sequence_numbers() {
    let mut first = Snapshot::default();
    first.seq = 12;
    first.cycle_count = 1;
    let mut second = first;
    second.cycle_count = 2;
    let mut latest = LatestSnapshot::new();
    latest.observe(&[0xFF; 64]);
    latest.observe(&first.to_bytes());
    latest.observe(&second.to_bytes());
    assert_eq!(latest.best(), Some(first));
}

#[test]
fn a_written_snapshot_is_recovered_from_the_ring() {
    let mut f = OnboardFlash::new();
    let mut s = sample_snapshot();
    let w = f.prepare_snapshot_write(&mut s);
    let mut latest = LatestSnapshot::new();
    latest.observe(&slot_record(0xFFFF_FFFF));
    latest.observe(&w.record);
    latest.observe(&[0xFF; 64]);
    assert_eq!(latest.best(), Some(s));
}
