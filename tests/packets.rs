use fileserver::directory::{DirectoryOfferPacket, FileInfo};
use fileserver::frame::{read_frame_header, write_frame, FrameError, Message};
use fileserver::packet::{
    epoch_time_now, DecodeError, FileOfferPacket, FilePacket, Packet, PingPacket, SpeedPacket,
    SpeedtestInfoPacket,
};
use fileserver::upload::BeginUploadPacket;

#[test]
fn file_packet_test() {
    let content = vec![1, 2, 3, 4, 5, 6, 7, 8, 9];
    let sent_packet = FilePacket::new(3, content.len() as u64, &content);
    let mut buffer = Vec::new();
    sent_packet.write(&mut buffer);
    assert_eq!(buffer.len(), sent_packet.size() as usize);
    let wrapped_packet = FilePacket::wrap(&buffer).expect("Failed to construct FilePacket packet");
    assert_eq!(sent_packet.transaction_id, wrapped_packet.transaction_id);
    assert_eq!(sent_packet.chunk_id, wrapped_packet.chunk_id);
    assert_eq!(sent_packet.file_bytes, wrapped_packet.file_bytes);
}

#[test]
fn transfer_offer_test() {
    let sent_packet = FileOfferPacket::new(133, 313, "àáąâãäå.zip".into());
    let mut buffer = Vec::new();
    sent_packet.write(&mut buffer);
    let declared_size = sent_packet.size();
    assert_eq!(buffer.len(), declared_size as usize);
    let constructed = FileOfferPacket::construct(&buffer)
        .expect("Failed to construct FileInfoPacket packet");
    assert_eq!(sent_packet.file_size, constructed.file_size);
    assert_eq!(sent_packet.file_name, constructed.file_name);
    assert_eq!(constructed.transaction_id, 133);
}

#[test]
fn speed_packet_test() {
    let data = vec![1, 2, 3, 4, 5, 6];
    let sent = SpeedPacket::new(&data);
    let mut buffer = Vec::new();
    sent.write(&mut buffer);
    assert_eq!(buffer.len(), 6);
    let constructed = SpeedPacket::wrap(&buffer).expect("Failed to construct SpeedPacket packet");
    assert_eq!(sent.random_bytes, constructed.random_bytes);
}

#[test]
fn ping_packet_test() {
    let ping = PingPacket::new_ping();
    let mut payload = Vec::new();
    ping.write(&mut payload);
    let mut frame = Vec::new();
    write_frame(ping.id(), &payload, &mut frame);
    let (id, content_size) = read_frame_header(&frame);
    assert_eq!(id, PingPacket::ID);
    let field_bytes = vec![0u8; content_size as usize];
    let ping_received = PingPacket::millis_taken(&field_bytes).unwrap();
    assert!(ping_received >= 0);
    assert_eq!(PingPacket::millis_taken(&field_bytes[..7]).err(), Some(DecodeError::Truncated));
}

#[test]
fn time() {
    println!("{}", epoch_time_now())
}

#[test]
fn file_offer_round_trip_with_empty_name() {
    let offer = FileOfferPacket::new(7, 0, String::new());
    let mut buffer = Vec::new();
    offer.write(&mut buffer);
    assert_eq!(buffer.len(), 16);
    assert_eq!(offer.size(), 16);
    let back = FileOfferPacket::construct(&buffer).unwrap();
    assert_eq!(back.transaction_id, 7);
    assert_eq!(back.file_size, 0);
    assert_eq!(back.file_name, "");
}

#[test]
fn file_offer_layout_is_big_endian() {
    let offer = FileOfferPacket::new(1, 258, "ab".to_string());
    let mut buffer = Vec::new();
    offer.write(&mut buffer);
    assert_eq!(
        buffer,
        vec![0, 0, 0, 0, 0, 0, 0, 1, 0, 0, 0, 0, 0, 0, 1, 2, b'a', b'b']
    );
}

#[test]
fn file_offer_rejects_bad_input() {
    assert_eq!(FileOfferPacket::construct(&[0u8; 15]).err(), Some(DecodeError::Truncated));
    let mut bytes = vec![0u8; 16];
    bytes.push(0xff);
    assert_eq!(FileOfferPacket::construct(&bytes).err(), Some(DecodeError::Utf8));
}

#[test]
fn file_chunk_round_trip_with_empty_content() {
    let empty: Vec<u8> = Vec::new();
    let chunk = FilePacket::new(9, 4, &empty);
    let mut buffer = Vec::new();
    chunk.write(&mut buffer);
    assert_eq!(buffer.len(), chunk.size() as usize);
    let back = FilePacket::wrap(&buffer).unwrap();
    assert_eq!(back.transaction_id, 9);
    assert_eq!(back.chunk_id, 4);
    assert!(back.file_bytes.is_empty());
    assert_eq!(FilePacket::wrap(&buffer[..15]).err(), Some(DecodeError::Truncated));
}

#[test]
fn speedtest_info_round_trip() {
    let info = SpeedtestInfoPacket::new_with_start(1_700_000_000_123);
    let mut buffer = Vec::new();
    info.write(&mut buffer);
    assert_eq!(buffer.len(), info.size() as usize);
    assert_eq!(SpeedtestInfoPacket::get_start_time(&buffer), Ok(1_700_000_000_123));
    assert_eq!(SpeedtestInfoPacket::get_start_time(&buffer[..3]), Err(DecodeError::Truncated));
    assert_eq!(SpeedtestInfoPacket::from_bytes(&buffer).unwrap().start_time, 1_700_000_000_123);
    assert_eq!(SpeedtestInfoPacket::from_bytes(&buffer[..7]).err(), Some(DecodeError::Truncated));
}

#[test]
fn ping_round_trip_and_elapsed() {
    let ping = PingPacket::new_with_time(1000);
    let mut buffer = Vec::new();
    ping.write(&mut buffer);
    assert_eq!(buffer.len(), ping.size() as usize);
    assert_eq!(PingPacket::from_bytes(&buffer).unwrap().creation_time, 1000);
    assert_eq!(PingPacket::millis_since(1250, &buffer), Ok(250));
    assert_eq!(PingPacket::millis_since(900, &buffer), Ok(-100));
    assert_eq!(PingPacket::from_bytes(&[]).err(), Some(DecodeError::Truncated));
}

#[test]
fn begin_upload_round_trip() {
    let upload = BeginUploadPacket::new(5, vec![0, 2, 7], vec![0, 10, 99]);
    assert_eq!(upload.files_accepted, 3);
    let mut buffer = Vec::new();
    upload.write(&mut buffer);
    assert_eq!(buffer.len(), 12 + 3 * 4 + 3 * 8);
    assert_eq!(buffer.len(), upload.size() as usize);
    let back = BeginUploadPacket::from_bytes(&buffer).unwrap();
    assert_eq!(back.transaction_id, 5);
    assert_eq!(back.files_accepted, 3);
    assert_eq!(back.file_indexes, vec![0, 2, 7]);
    assert_eq!(back.cursors, vec![0, 10, 99]);
    assert!(back.has_any_files());
}

#[test]
fn begin_upload_denial_and_truncation() {
    let denied = BeginUploadPacket::new(5, vec![], vec![]);
    assert_eq!(denied.transaction_id, 0);
    assert!(!denied.has_any_files());
    let mut buffer = Vec::new();
    denied.write(&mut buffer);
    assert_eq!(buffer.len(), 12);
    let back = BeginUploadPacket::from_bytes(&buffer).unwrap();
    assert!(!back.has_any_files());
    assert_eq!(BeginUploadPacket::from_bytes(&buffer[..11]).err(), Some(DecodeError::Truncated));
    let one = BeginUploadPacket::single_file(3, 40);
    let mut bytes = Vec::new();
    one.write(&mut bytes);
    assert_eq!(BeginUploadPacket::from_bytes(&bytes[..23]).err(), Some(DecodeError::Truncated));
    let all = BeginUploadPacket::accept_all(8, 3);
    assert_eq!(all.file_indexes, vec![0, 1, 2]);
    assert_eq!(all.cursors, vec![0, 0, 0]);
    assert_eq!(all.files_accepted, 3);
}

#[test]
fn directory_offer_round_trip() {
    let files = vec![
        FileInfo::new("a.txt".to_string(), 10),
        FileInfo::new("".to_string(), 0),
        FileInfo::new("żółw.bin".to_string(), 5),
    ];
    let offer = DirectoryOfferPacket::new("katalog ą".to_string(), files);
    assert_eq!(offer.total_size, 15);
    assert_eq!(offer.file_count, 3);
    assert_eq!(offer.name_size, "katalog ą".len() as u64);
    let mut buffer = Vec::new();
    offer.write(&mut buffer);
    assert_eq!(buffer.len(), offer.size() as usize);
    let back = DirectoryOfferPacket::from_bytes(&buffer).unwrap();
    assert_eq!(back.total_size, 15);
    assert_eq!(back.file_count, 3);
    assert_eq!(back.directory_name, "katalog ą");
    assert_eq!(back.files.len(), 3);
    assert_eq!(back.files[2].name, "żółw.bin");
    assert_eq!(back.files[2].size, 5);
    assert_eq!(back.files[1].name, "");
    assert_eq!(back.files[0].name_size, 5);
}

#[test]
fn directory_offer_rejects_bad_input() {
    assert_eq!(DirectoryOfferPacket::from_bytes(&[0u8; 23]).err(), Some(DecodeError::Truncated));
    let offer = DirectoryOfferPacket::new(
        "d".to_string(),
        vec![FileInfo::new("x".to_string(), 1)],
    );
    let mut buffer = Vec::new();
    offer.write(&mut buffer);
    let cut = buffer.len() - 1;
    assert_eq!(DirectoryOfferPacket::from_bytes(&buffer[..cut]).err(), Some(DecodeError::Truncated));
    let mut bad = buffer.clone();
    let last = bad.len() - 1;
    bad[last] = 0xff;
    assert_eq!(DirectoryOfferPacket::from_bytes(&bad).err(), Some(DecodeError::Utf8));
    let empty = DirectoryOfferPacket::empty();
    let mut bytes = Vec::new();
    empty.write(&mut bytes);
    assert_eq!(bytes.len(), 24);
    assert_eq!(DirectoryOfferPacket::from_bytes(&bytes).unwrap().file_count, 0);
}

#[test]
fn frame_header_and_dispatch() {
    let offer = FileOfferPacket::new(1, 2, "f".to_string());
    let mut payload = Vec::new();
    offer.write(&mut payload);
    let mut frame = Vec::new();
    write_frame(FileOfferPacket::ID, &payload, &mut frame);
    assert_eq!(frame.len(), 8 + payload.len());
    assert_eq!(&frame[0..4], &[0, 1, 0x86, 0xa0]);
    let (id, len) = read_frame_header(&frame);
    assert_eq!(id, 100_000);
    assert_eq!(len as usize, payload.len());
    match Message::decode(id, &frame[8..]) {
        Ok(Message::FileOffer(p)) => assert_eq!(p.file_name, "f"),
        _ => panic!("expected a file offer"),
    }
    assert!(matches!(Message::decode(12345, &[]), Err(FrameError::UnknownId(12345))));
    assert!(matches!(
        Message::decode(FilePacket::ID, &[1, 2]),
        Err(FrameError::Decode(DecodeError::Truncated))
    ));
    assert!(matches!(Message::decode(SpeedPacket::ID, &[1, 2]), Ok(Message::Speed(_))));
}

#[test]
fn header_precedes_payload() {
    let ping = PingPacket::new_with_time(5);
    let mut bytes = Vec::new();
    ping.write_header(&mut bytes);
    ping.write(&mut bytes);
    assert_eq!(bytes, vec![0, 7, 0xa1, 0x20, 0, 0, 0, 8, 0, 0, 0, 0, 0, 0, 0, 5]);
}
