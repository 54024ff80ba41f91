use fsw::umbilical::{
    begin_dump, emit_log_line, emit_telemetry, end_dump, inject_heartbeat, is_connected,
    parse_token, print_bytes, print_str, push_command, receive_usb_packet, record_heartbeat,
    split_fields, take_outbound, try_recv_command, Umbilical, UmbilicalCommand, UsbInput,
    CHUNK_SIZE, COMMAND_CAPACITY, HEARTBEAT_TIMEOUT_MS, OUTBOUND_CAPACITY,
};

fn drain(link: &mut Umbilical) -> Vec<Vec<u8>> {
    let mut out = Vec::new();
    while let Some(c) = take_outbound(link) {
        out.push(c);
    }
    out
}

#[test]
fn tokens_map_to_commands() {
    assert_eq!(parse_token(b"<L>"), Some(UmbilicalCommand::Launch));
    assert_eq!(parse_token(b"<M>"), Some(UmbilicalCommand::OpenMav));
    assert_eq!(parse_token(b"<m>"), Some(UmbilicalCommand::CloseMav));
    assert_eq!(parse_token(b"<G>"), Some(UmbilicalCommand::DumpFlash));
    assert_eq!(parse_token(b"<W>"), Some(UmbilicalCommand::WipeFlash));
    assert_eq!(parse_token(b"<B>"), Some(UmbilicalCommand::TriggerBLiMS));
    assert_eq!(parse_token(b"<A1>"), Some(UmbilicalCommand::PayloadA1));
    assert_eq!(parse_token(b"<KA>"), Some(UmbilicalCommand::KeyArm));
    assert_eq!(parse_token(b"<KD>"), Some(UmbilicalCommand::KeyDisarm));
    assert_eq!(parse_token(b"<FU>"), Some(UmbilicalCommand::FaultMode));
    assert_eq!(parse_token(b"<Z>"), None);
    assert_eq!(parse_token(b"<A9>"), None);
    assert_eq!(parse_token(b"L"), None);
    assert_eq!(parse_token(b"<L>\n"), None);
}

#[test]
fn fields_split_at_commas() {
    let parts = split_fields(b"42.5,-76.1,,x");
    assert_eq!(parts, vec![b"42.5".to_vec(), b"-76.1".to_vec(), Vec::new(), b"x".to_vec()]);
    assert_eq!(split_fields(b""), vec![Vec::<u8>::new()]);
}

#[test]
fn heartbeat_keeps_link_connected_for_three_seconds() {
    let mut link = Umbilical::new();
    assert!(!is_connected(&link, 0));
    let r = receive_usb_packet(&mut link, b"<H>", 1000);
    assert!(matches!(r, UsbInput::Heartbeat));
    assert!(is_connected(&link, 1000));
    assert!(is_connected(&link, 1000 + HEARTBEAT_TIMEOUT_MS - 1));
    assert!(!is_connected(&link, 1000 + HEARTBEAT_TIMEOUT_MS));
}

#[test]
fn heartbeat_age_wraps_with_the_clock() {
    let mut link = Umbilical::new();
    record_heartbeat(&mut link, u32::MAX - 100);
    assert!(is_connected(&link, 100));
    assert!(!is_connected(&link, 3000));
}

#[test]
fn injected_heartbeat_counts() {
    let mut link = Umbilical::new();
    inject_heartbeat(&mut link, 500);
    assert!(is_connected(&link, 600));
}

#[test]
fn heartbeat_inside_other_packet_is_noted() {
    let mut link = Umbilical::new();
    let r = receive_usb_packet(&mut link, b"xx<H>yy", 20);
    assert!(matches!(r, UsbInput::Token(None)));
    assert!(is_connected(&link, 21));
    assert_eq!(try_recv_command(&mut link), None);
}

#[test]
fn command_packets_are_queued() {
    let mut link = Umbilical::new();
    let r = receive_usb_packet(&mut link, b"<M>", 5);
    assert!(matches!(r, UsbInput::Token(Some(UmbilicalCommand::OpenMav))));
    assert!(!is_connected(&link, 5));
    assert_eq!(try_recv_command(&mut link), Some(UmbilicalCommand::OpenMav));
    assert_eq!(try_recv_command(&mut link), None);
}

#[test]
fn target_packets_give_their_fields() {
    let mut link = Umbilical::new();
    match receive_usb_packet(&mut link, b"<T,42.1,-76.2,42.3,-76.4>", 0) {
        UsbInput::BlimsTarget(Some(fields)) => {
            assert_eq!(fields.len(), 4);
            assert_eq!(fields[0], b"42.1".to_vec());
            assert_eq!(fields[3], b"-76.4".to_vec());
        }
        _ => panic!("expected four target fields"),
    }
    assert!(matches!(receive_usb_packet(&mut link, b"<T,1,2>", 0), UsbInput::BlimsTarget(None)));
    assert_eq!(try_recv_command(&mut link), None);
}

#[test]
fn command_queue_holds_four() {
    let mut link = Umbilical::new();
    assert_eq!(COMMAND_CAPACITY, 4);
    push_command(&mut link, UmbilicalCommand::Launch);
    push_command(&mut link, UmbilicalCommand::OpenSv);
    push_command(&mut link, UmbilicalCommand::CloseSv);
    push_command(&mut link, UmbilicalCommand::Safe);
    push_command(&mut link, UmbilicalCommand::Reboot);
    assert_eq!(try_recv_command(&mut link), Some(UmbilicalCommand::Launch));
    assert_eq!(try_recv_command(&mut link), Some(UmbilicalCommand::OpenSv));
    assert_eq!(try_recv_command(&mut link), Some(UmbilicalCommand::CloseSv));
    assert_eq!(try_recv_command(&mut link), Some(UmbilicalCommand::Safe));
    assert_eq!(try_recv_command(&mut link), None);
}

#[test]
fn output_is_cut_into_chunks_in_order() {
    let mut link = Umbilical::new();
    let data: Vec<u8> = (0..130u32).map(|i| i as u8).collect();
    print_bytes(&mut link, &data);
    let chunks = drain(&mut link);
    assert_eq!(chunks.len(), 3);
    assert_eq!(chunks[0].len(), CHUNK_SIZE);
    assert_eq!(chunks[1].len(), CHUNK_SIZE);
    assert_eq!(chunks[2].len(), 2);
    let joined: Vec<u8> = chunks.concat();
    assert_eq!(joined, data);
}

#[test]
fn outbound_queue_drops_what_does_not_fit() {
    let mut link = Umbilical::new();
    let data = vec![7u8; CHUNK_SIZE * 40];
    print_bytes(&mut link, &data);
    let chunks = drain(&mut link);
    assert_eq!(chunks.len(), OUTBOUND_CAPACITY);
    assert!(chunks.iter().all(|c| c.len() == CHUNK_SIZE));
}

#[test]
fn dump_holds_back_telemetry_and_logs() {
    let mut link = Umbilical::new();
    begin_dump(&mut link);
    emit_telemetry(&mut link, b"1,2,3\n");
    emit_log_line(&mut link, b"INFO x\n");
    print_str(&mut link, "BEGIN FLASH BINARY DUMP\n");
    print_bytes(&mut link, &[0xFA, 1, 2]);
    end_dump(&mut link);
    emit_telemetry(&mut link, b"4,5\n");
    let chunks = drain(&mut link);
    assert_eq!(chunks, vec![b"BEGIN FLASH BINARY DUMP\n".to_vec(), vec![0xFA, 1, 2], b"4,5\n".to_vec()]);
}

#[test]
fn a_nearly_full_queue_takes_the_start_of_the_data() {
    let mut link = Umbilical::new();
    print_bytes(&mut link, &vec![1u8; CHUNK_SIZE * 30]);
    let data: Vec<u8> = (0..200u32).map(|i| i as u8).collect();
    print_bytes(&mut link, &data);
    let chunks = drain(&mut link);
    assert_eq!(chunks.len(), OUTBOUND_CAPACITY);
    let tail: Vec<u8> = chunks[30..].concat();
    assert_eq!(tail, data[..2 * CHUNK_SIZE].to_vec());
}
