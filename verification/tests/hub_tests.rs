use diskio::buffer::FillStrategy;
use diskio::channel::{DataChunk, SendError};
use diskio::hub::{consume, fresh_chunk, produce, settle, Turn};
use diskio::pool::{ChannelWriter, TaskStatus, WriteTask, WriterAction};

#[test]
fn fresh_chunk_has_one_block_for_its_offset() {
    let chunk = fresh_chunk(4096, 512, FillStrategy::Zero);
    assert_eq!(chunk, DataChunk { offset: 4096, data: vec![0u8; 512] });
    let chunk = fresh_chunk(8, 4096, FillStrategy::Random);
    assert_eq!(chunk.offset, 8);
    assert_eq!(chunk.data.len(), 4096);
    assert!(chunk.data.iter().any(|b| *b != 0));
}

#[test]
fn producer_sends_its_stride_into_the_channel() {
    let (tx, rx) = async_channel::bounded::<DataChunk>(4);
    let mut task = WriteTask::new(1, 64, 2).unwrap();
    assert_eq!(produce(&mut task, &tx, FillStrategy::Zero, 0, 30), Turn::Sent);
    assert_eq!(produce(&mut task, &tx, FillStrategy::Zero, 1, 30), Turn::Sent);
    assert_eq!(task.bytes_written(), 128);
    assert_eq!(rx.len(), 2);
    assert_eq!(rx.try_recv().unwrap(), DataChunk { offset: 64, data: vec![0u8; 64] });
    assert_eq!(rx.try_recv().unwrap(), DataChunk { offset: 64 + 128, data: vec![0u8; 64] });
}

#[test]
fn producer_is_held_back_by_a_full_channel() {
    let (tx, rx) = async_channel::bounded::<DataChunk>(2);
    let mut task = WriteTask::new(0, 16, 1).unwrap();
    assert_eq!(produce(&mut task, &tx, FillStrategy::Zero, 0, 30), Turn::Sent);
    assert_eq!(produce(&mut task, &tx, FillStrategy::Zero, 0, 30), Turn::Sent);
    let held = produce(&mut task, &tx, FillStrategy::Zero, 0, 30);
    assert_eq!(held, Turn::Pending(DataChunk { offset: 32, data: vec![0u8; 16] }));
    assert_eq!(task.bytes_written(), 32);
    assert_eq!(task.status(), TaskStatus::Running);
    assert_eq!(rx.len(), 2);

    assert_eq!(rx.try_recv().unwrap().offset, 0);
    let retried = produce(&mut task, &tx, FillStrategy::Zero, 0, 30);
    assert_eq!(retried, Turn::Sent);
    assert_eq!(task.bytes_written(), 48);
    assert_eq!(rx.try_recv().unwrap().offset, 16);
    assert_eq!(rx.try_recv().unwrap().offset, 32);
}

#[test]
fn producer_stops_at_the_deadline_without_sending() {
    let (tx, rx) = async_channel::bounded::<DataChunk>(2);
    let mut task = WriteTask::new(0, 16, 1).unwrap();
    assert_eq!(produce(&mut task, &tx, FillStrategy::Random, 30, 30), Turn::Stopped);
    assert_eq!(task.status(), TaskStatus::Finished);
    assert!(rx.is_empty());
}

#[test]
fn producer_stops_silently_on_a_closed_channel() {
    let (tx, rx) = async_channel::bounded::<DataChunk>(2);
    let mut task = WriteTask::new(0, 16, 1).unwrap();
    assert_eq!(produce(&mut task, &tx, FillStrategy::Zero, 0, 30), Turn::Sent);
    rx.close();
    assert_eq!(produce(&mut task, &tx, FillStrategy::Zero, 0, 30), Turn::Stopped);
    assert_eq!(task.status(), TaskStatus::Finished);
    assert_eq!(task.bytes_written(), 16);
}

#[test]
fn settling_a_send_books_it_on_the_task() {
    let mut task = WriteTask::new(0, 16, 1).unwrap();
    assert_eq!(settle(&mut task, Ok(())), Turn::Sent);
    assert_eq!(task.bytes_written(), 16);
    let chunk = DataChunk { offset: 16, data: vec![1, 2] };
    assert_eq!(
        settle(&mut task, Err(SendError::Full(DataChunk { offset: 16, data: vec![1, 2] }))),
        Turn::Pending(chunk)
    );
    assert_eq!(task.bytes_written(), 16);
    assert_eq!(task.status(), TaskStatus::Running);
    assert_eq!(
        settle(&mut task, Err(SendError::Closed(DataChunk { offset: 16, data: vec![] }))),
        Turn::Stopped
    );
    assert_eq!(task.status(), TaskStatus::Finished);
    assert_eq!(task.bytes_written(), 16);
}

#[test]
fn writer_takes_what_the_channel_holds() {
    let (tx, rx) = async_channel::bounded::<DataChunk>(2);
    let writer = ChannelWriter::new(0);
    assert_eq!(consume(&writer, &rx), WriterAction::Wait);
    tx.try_send(DataChunk { offset: 5, data: vec![9, 9] }).unwrap();
    tx.try_send(DataChunk { offset: 7, data: vec![8] }).unwrap();
    tx.close();
    assert_eq!(consume(&writer, &rx), WriterAction::Write(DataChunk { offset: 5, data: vec![9, 9] }));
    assert_eq!(consume(&writer, &rx), WriterAction::Write(DataChunk { offset: 7, data: vec![8] }));
    assert_eq!(consume(&writer, &rx), WriterAction::Stop);
}

#[test]
fn block_too_large_for_a_buffer_fails_the_task() {
    let (tx, rx) = async_channel::bounded::<DataChunk>(2);
    let mut task = WriteTask::new(0, 1 << 63, 1).unwrap();
    assert_eq!(produce(&mut task, &tx, FillStrategy::Zero, 0, 30), Turn::Stopped);
    assert_eq!(task.status(), TaskStatus::Failed);
    assert!(rx.is_empty());
}
