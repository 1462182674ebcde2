use input_only_proxy::relay::{
    conclude, forwarding_failed_message, progress, ReadStep, Reader, RelayError, SendStep, TaskOutcome, TransferReport,
    WriteStep, Writer, MEBIBYTE, READ_BUFFER_SIZE,
};
use std::collections::VecDeque;

const STEP: u64 = 100 * 1024 * 1024;

/// A buffer that begins with `bytes`.
fn filled(bytes: &[u8]) -> Box<[u8; READ_BUFFER_SIZE]> {
    let mut buffer = Box::new([0xee; READ_BUFFER_SIZE]);
    buffer[..bytes.len()].copy_from_slice(bytes);
    buffer
}

/// Reads `chunk` and hands it to the queue.
fn receive(reader: &mut Reader, queue: &mut VecDeque<Vec<u8>>, chunk: &[u8]) -> SendStep {
    match reader.on_read(&filled(chunk), chunk.len()) {
        ReadStep::Send(sent) => {
            assert_eq!(sent, chunk);
            queue.push_back(sent);
            reader.on_sent(true)
        }
        ReadStep::Stop => panic!("something was read"),
    }
}

/// Relays the chunks; the container takes one after each of `taken` receipts.
fn relay(chunks: &[&[u8]], taken: &[usize]) -> (Vec<SendStep>, u64, u64, Vec<u8>) {
    let (mut reader, mut writer) = (Reader::new(), Writer::new());
    let mut queue = VecDeque::new();
    let mut steps = Vec::new();
    let mut container = Vec::new();
    for (i, chunk) in chunks.iter().enumerate() {
        steps.push(receive(&mut reader, &mut queue, chunk));
        for _ in taken.iter().filter(|at| **at == i) {
            if let Some(next) = queue.pop_front() {
                container.extend_from_slice(&next);
                writer.on_write(&next, true);
            }
        }
    }
    (steps, reader.total_bytes(), writer.total_bytes(), container)
}

#[test]
fn buffer_holds_64_kib() {
    assert_eq!(READ_BUFFER_SIZE, 65536);
    assert_eq!(MEBIBYTE, 1048576);
}

#[test]
fn reader_counts_and_copies_what_was_read() {
    let mut reader = Reader::new();
    assert_eq!(reader.total_bytes(), 0);
    let buffer = filled(&[1, 2, 3, 4, 5]);
    match reader.on_read(&buffer, 3) {
        ReadStep::Send(chunk) => assert_eq!(chunk, vec![1, 2, 3]),
        ReadStep::Stop => panic!("three bytes were read"),
    }
    assert_eq!(reader.total_bytes(), 3);
    match reader.on_read(&buffer, 5) {
        ReadStep::Send(chunk) => assert_eq!(chunk, vec![1, 2, 3, 4, 5]),
        ReadStep::Stop => panic!("five bytes were read"),
    }
    assert_eq!(reader.total_bytes(), 8);
}

#[test]
fn reader_stops_when_the_client_disconnects() {
    let mut reader = Reader::new();
    assert!(matches!(reader.on_read(&filled(&[1, 2, 3]), 0), ReadStep::Stop));
    assert_eq!(reader.total_bytes(), 0);
}

#[test]
fn reader_stops_when_nobody_takes_chunks() {
    let mut reader = Reader::new();
    assert!(matches!(reader.on_read(&filled(&[1, 2, 3]), 2), ReadStep::Send(_)));
    assert_eq!(reader.on_sent(false), SendStep::Stop);
    // The chunk that was not taken is counted all the same.
    assert_eq!(reader.total_bytes(), 2);
    assert_eq!(reader.on_sent(true), SendStep::Read(None));
}

#[test]
fn writer_stops_at_a_failed_write() {
    let mut writer = Writer::new();
    assert_eq!(writer.on_write(&[1, 2, 3], true), WriteStep::Next(None));
    assert_eq!(writer.on_write(&[4, 5], false), WriteStep::Stop);
    // The chunk that was not written does not count.
    assert_eq!(writer.total_bytes(), 3);
}

#[test]
fn chunks_stay_within_the_buffer() {
    let buffer = Box::new([9u8; READ_BUFFER_SIZE]);
    let mut reader = Reader::new();
    for bytes_read in [1, READ_BUFFER_SIZE - 1, READ_BUFFER_SIZE] {
        match reader.on_read(&buffer, bytes_read) {
            ReadStep::Send(chunk) => assert_eq!(chunk.len(), bytes_read),
            ReadStep::Stop => panic!("something was read"),
        }
    }
    assert_eq!(reader.total_bytes(), 2 * READ_BUFFER_SIZE as u64);
}

#[test]
fn relay_that_ends_in_order_has_delivered_everything() {
    let (mut reader, mut writer) = (Reader::new(), Writer::new());
    let mut queue = VecDeque::new();
    let mut container = Vec::new();
    for chunk in [&b"ab"[..], b"c", b"def"] {
        receive(&mut reader, &mut queue, chunk);
    }
    assert!(matches!(reader.on_read(&filled(&[0]), 0), ReadStep::Stop));
    while let Some(chunk) = queue.pop_front() {
        container.extend_from_slice(&chunk);
        assert_eq!(writer.on_write(&chunk, true), WriteStep::Next(None));
    }
    assert_eq!(container, b"abcdef");
    assert_eq!(
        conclude(reader.outcome(false), writer.outcome(false)),
        Ok(TransferReport { received_mb: 0, forwarded_mb: 0, mismatch: false })
    );
}

#[test]
fn progress_is_told_at_whole_steps() {
    assert_eq!(progress(0), Some(0));
    assert_eq!(progress(1), None);
    assert_eq!(progress(STEP - 1), None);
    assert_eq!(progress(STEP), Some(100));
    assert_eq!(progress(STEP + 1), None);
    assert_eq!(progress(3 * STEP), Some(300));
    assert_eq!(progress(u64::MAX), None);
}

#[test]
fn both_sides_tell_progress() {
    let chunk = Box::new([7u8; READ_BUFFER_SIZE]);
    let turns = STEP / READ_BUFFER_SIZE as u64;
    let mut reader = Reader::new();
    let mut writer = Writer::new();
    for turn in 1..=turns {
        let told = if turn == turns { Some(100) } else { None };
        assert!(matches!(reader.on_read(&chunk, READ_BUFFER_SIZE), ReadStep::Send(_)));
        assert_eq!(reader.on_sent(true), SendStep::Read(told));
        assert_eq!(writer.on_write(&chunk[..], true), WriteStep::Next(told));
    }
    assert_eq!(reader.total_bytes(), STEP);
    assert_eq!(writer.total_bytes(), STEP);
}

#[test]
fn container_pace_does_not_show() {
    let chunks: [&[u8]; 4] = [b"ab", b"c", b"def", b"g"];
    let fast = relay(&chunks, &[0, 1, 2, 3]);
    let slow = relay(&chunks, &[3]);
    let never = relay(&chunks, &[]);
    assert_eq!(fast.0, slow.0);
    assert_eq!(fast.0, never.0);
    assert_eq!((fast.1, slow.1, never.1), (7, 7, 7));
}

#[test]
fn container_gets_the_bytes_in_order() {
    let chunks: [&[u8]; 3] = [b"ab", b"c", b"def"];
    assert_eq!(relay(&chunks, &[0, 1, 2]).3, b"abcdef");
    assert_eq!(relay(&chunks, &[2, 2]).3, b"abc");
    assert_eq!(relay(&chunks, &[2, 2, 2]).3, b"abcdef");
}

#[test]
fn mismatch_means_loss() {
    let chunks: [&[u8]; 3] = [b"ab", b"c", b"def"];
    for taken in [&[][..], &[2], &[1, 2], &[0, 1, 2]] {
        let (_, received, forwarded, container) = relay(&chunks, taken);
        assert_eq!(forwarded, container.len() as u64);
        let report =
            conclude(TaskOutcome::Finished(received), TaskOutcome::Finished(forwarded)).unwrap();
        assert_eq!(report.mismatch, container != b"abcdef");
    }
}

#[test]
fn report_is_in_whole_mebibytes() {
    assert_eq!(
        conclude(TaskOutcome::Finished(3 * MEBIBYTE - 1), TaskOutcome::Finished(MEBIBYTE)),
        Ok(TransferReport { received_mb: 2, forwarded_mb: 1, mismatch: true })
    );
    assert_eq!(
        conclude(TaskOutcome::Finished(0), TaskOutcome::Finished(0)),
        Ok(TransferReport { received_mb: 0, forwarded_mb: 0, mismatch: false })
    );
}

#[test]
fn broken_sides_are_named_reader_first() {
    let done = TaskOutcome::Finished(1);
    for writer in [done, TaskOutcome::Failed, TaskOutcome::Crashed] {
        assert_eq!(conclude(TaskOutcome::Crashed, writer), Err(RelayError::ReaderCrashed));
        assert_eq!(conclude(TaskOutcome::Failed, writer), Err(RelayError::ReaderFailed));
    }
    assert_eq!(conclude(done, TaskOutcome::Crashed), Err(RelayError::WriterCrashed));
    assert_eq!(conclude(done, TaskOutcome::Failed), Err(RelayError::WriterFailed));
}

#[test]
fn sides_end_with_their_count_or_an_error() {
    let (mut reader, mut writer) = (Reader::new(), Writer::new());
    assert!(matches!(reader.on_read(&filled(&[1, 2, 3]), 3), ReadStep::Send(_)));
    writer.on_write(&[1, 2], true);
    assert_eq!(reader.outcome(false), TaskOutcome::Finished(3));
    assert_eq!(writer.outcome(false), TaskOutcome::Finished(2));
    assert_eq!(reader.outcome(true), TaskOutcome::Failed);
    assert_eq!(writer.outcome(true), TaskOutcome::Failed);
}

#[test]
fn broken_write_leaves_the_first_bytes() {
    let (mut reader, mut writer) = (Reader::new(), Writer::new());
    let mut queue = VecDeque::new();
    for chunk in [&b"ab"[..], b"cde", b"f"] {
        receive(&mut reader, &mut queue, chunk);
    }
    let first = queue.pop_front().unwrap();
    writer.on_write(&first, true);
    let broken = queue.pop_front().unwrap();
    assert_eq!(writer.on_write(&broken, false), WriteStep::Stop);
    for written in 0..=broken.len() {
        let container = [&first[..], &broken[..written]].concat();
        assert!(b"abcdef".starts_with(&container));
    }
    assert_eq!(
        conclude(reader.outcome(false), writer.outcome(true)),
        Err(RelayError::WriterFailed)
    );
}

#[test]
fn failed_transfer_is_told() {
    assert_eq!(
        forwarding_failed_message("10.0.0.1:4711"),
        "Data forwarding failed for 10.0.0.1:4711"
    );
}

#[test]
fn relay_errors_are_told() {
    assert_eq!(RelayError::ReaderCrashed.message(), Some("TLS reader failed"));
    assert_eq!(RelayError::WriterCrashed.message(), Some("Unix writer failed"));
    assert_eq!(RelayError::ReaderFailed.message(), None);
    assert_eq!(RelayError::WriterFailed.message(), Some("Failed to write to container"));
}
