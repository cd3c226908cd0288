use fileserver::args::ProgramArgs;
use fileserver::config::Config;
use fileserver::directory::FileInfo;
use fileserver::packet::{DecodeError, FilePacket, Packet, MB_1};
use fileserver::upload::BeginUploadPacket;
use fileserver::speedtest::{one_way_latency, speed_payload, sync_start_time};
use fileserver::transfer::{
    accepted_transfers, answer_directory_offer, reconcile_directory, resume_cursor, ChunkReceiver, ChunkSender, TransferError,
};

fn chunk_frame(transaction_id: u64, chunk_id: u64, content: &[u8]) -> Vec<u8> {
    let mut payload = Vec::new();
    FilePacket::new(transaction_id, chunk_id, content).write(&mut payload);
    payload
}

/// Streams `file` from `cursor` through a sender and a receiver into `disk`.
fn stream(file: &[u8], cursor: u64, disk: &mut Vec<u8>, chunk_size: u64) -> Vec<u64> {
    let mut sender = ChunkSender::new(1, cursor, file.len() as u64, chunk_size);
    let mut receiver = ChunkReceiver::new(cursor, file.len() as u64);
    let mut ids = Vec::new();
    while sender.has_next_chunk() {
        let start = sender.cursor as usize;
        let len = sender.next_chunk_len() as usize;
        let packet = sender.packet(&file[start..start + len]);
        let mut payload = Vec::new();
        packet.write(&mut payload);
        ids.push(packet.chunk_id);
        let got = receiver.accept_chunk(FilePacket::ID, &payload).unwrap();
        disk.extend_from_slice(got.file_bytes);
    }
    assert!(receiver.is_complete());
    ids
}

#[test]
fn single_file_acceptance() {
    assert_eq!(resume_cursor(None, 10), Some(0));
    assert_eq!(resume_cursor(Some(4), 10), Some(4));
    assert_eq!(resume_cursor(Some(10), 10), None);
    assert_eq!(resume_cursor(Some(11), 10), None);
    assert_eq!(resume_cursor(Some(0), 0), None);
}

#[test]
fn directory_reconciliation_scenario() {
    let offered = vec![
        FileInfo::new("a".to_string(), 10),
        FileInfo::new("b".to_string(), 0),
        FileInfo::new("c".to_string(), 5),
    ];
    let local = vec![FileInfo::new("b".to_string(), 0), FileInfo::new("c".to_string(), 5)];
    let upload = reconcile_directory(1, &offered, &local);
    assert_eq!(upload.file_indexes, vec![0]);
    assert_eq!(upload.cursors, vec![0]);
    assert_eq!(upload.files_accepted, 1);
    assert_eq!(upload.transaction_id, 1);
}

#[test]
fn directory_reconciliation_resumes_and_denies() {
    let offered = vec![FileInfo::new("a".to_string(), 10), FileInfo::new("b".to_string(), 3)];
    let local = vec![FileInfo::new("a".to_string(), 4)];
    let upload = reconcile_directory(2, &offered, &local);
    assert_eq!(upload.file_indexes, vec![0, 1]);
    assert_eq!(upload.cursors, vec![4, 0]);
    let complete = vec![FileInfo::new("a".to_string(), 10), FileInfo::new("b".to_string(), 3)];
    let none = reconcile_directory(2, &offered, &complete);
    assert!(!none.has_any_files());
}

#[test]
fn resume_reassembles_file() {
    let file: Vec<u8> = (0..1000u32).map(|i| (i * 7 % 251) as u8).collect();
    let cursor = 333u64;
    let mut disk = file[..cursor as usize].to_vec();
    let ids = stream(&file, cursor, &mut disk, 100);
    assert_eq!(disk, file);
    assert_eq!(ids, (0..7).collect::<Vec<u64>>());
}

#[test]
fn three_mib_end_to_end() {
    let file: Vec<u8> = (0..3 * MB_1).map(|i| (i % 253) as u8).collect();
    let mut disk = Vec::new();
    let ids = stream(&file, 0, &mut disk, MB_1 as u64);
    assert_eq!(ids, vec![0, 1, 2]);
    assert_eq!(disk, file);
}

#[test]
fn chunk_gap_aborts() {
    let mut receiver = ChunkReceiver::new(0, 30);
    let first = chunk_frame(1, 0, &[1; 10]);
    assert_eq!(receiver.accept_chunk(FilePacket::ID, &first).unwrap().file_bytes, &[1; 10]);
    let skipped = chunk_frame(1, 2, &[3; 10]);
    assert_eq!(
        receiver.accept_chunk(FilePacket::ID, &skipped).err(),
        Some(TransferError::ChunkOrder { expected: 1, received: 2 })
    );
    assert_eq!(receiver.expected_chunk_id, 1);
    assert_eq!(receiver.current_size, 10);
}

#[test]
fn wrong_message_aborts() {
    let mut receiver = ChunkReceiver::new(5, 30);
    let frame = chunk_frame(1, 0, &[1; 10]);
    assert_eq!(
        receiver.accept_chunk(500_000, &frame).err(),
        Some(TransferError::ProtocolSequence(500_000))
    );
    assert_eq!(
        receiver.accept_chunk(FilePacket::ID, &frame[..10]).err(),
        Some(TransferError::Decode(DecodeError::Truncated))
    );
    assert_eq!(receiver.current_size, 5);
    assert!(!receiver.is_complete());
}

#[test]
fn sender_clamps_cursor_and_sizes_last_chunk() {
    let sender = ChunkSender::new(1, 50, 40, 16);
    assert!(!sender.has_next_chunk());
    let sender = ChunkSender::new(1, 30, 40, 16);
    assert_eq!(sender.next_chunk_len(), 10);
}

#[test]
fn speedtest_helpers() {
    assert_eq!(speed_payload(1000).len(), 1000);
    assert_eq!(sync_start_time(1000), 1300);
    assert_eq!(sync_start_time(u64::MAX - 1), u64::MAX);
    assert_eq!(one_way_latency(41), 20);
}

#[test]
fn bool_flags() {
    assert!(ProgramArgs::str_to_bool("true"));
    assert!(!ProgramArgs::str_to_bool("false"));
}

#[test]
fn empty_config() {
    let config = Config::empty();
    assert!(config.host_ip.is_none() && config.connect_port.is_none());
    assert!(config.auto_accept.is_none() && config.read_timeout.is_none());
}

#[test]
fn new_directory_accepts_everything() {
    let offered = vec![FileInfo::new("a".to_string(), 10), FileInfo::new("b".to_string(), 0)];
    let upload = answer_directory_offer(4, &offered, None);
    assert_eq!(upload.file_indexes, vec![0, 1]);
    assert_eq!(upload.cursors, vec![0, 0]);
    assert_eq!(upload.transaction_id, 4);
    let local = vec![FileInfo::new("a".to_string(), 10)];
    let partial = answer_directory_offer(4, &offered, Some(&local));
    assert_eq!(partial.file_indexes, vec![1]);
}

#[test]
fn in_order_chunk_is_taken() {
    let mut receiver = ChunkReceiver::new(0, 3);
    let frame = chunk_frame(1, 0, &[7, 8, 9]);
    assert_eq!(receiver.accept_chunk(FilePacket::ID, &frame).unwrap().file_bytes, &[7, 8, 9]);
    assert!(receiver.is_complete());
    assert_eq!(receiver.expected_chunk_id, 1);
}

#[test]
fn accepted_transfers_pairs_and_checks() {
    let upload = BeginUploadPacket::new(1, vec![2, 0], vec![5, 0]);
    assert_eq!(accepted_transfers(3, &upload), Some(vec![(2, 5), (0, 0)]));
    assert_eq!(accepted_transfers(2, &upload), None);
    let short = BeginUploadPacket { transaction_id: 1, files_accepted: 2, file_indexes: vec![0, 1], cursors: vec![0] };
    assert_eq!(accepted_transfers(3, &short), None);
}
