use diskio::channel::{DataChunk, RecvError};
use diskio::pool::{
    deadline_reached, ChannelWriter, TaskAction, TaskStatus, WriteTask, WriterAction,
};
use diskio::throughput::{aggregate_throughput, TaskReport};

#[test]
fn deadline_is_reached_at_the_duration() {
    assert!(!deadline_reached(29, 30));
    assert!(deadline_reached(30, 30));
    assert!(deadline_reached(31, 30));
    assert!(deadline_reached(0, 0));
}

#[test]
fn task_writes_its_stride_until_the_deadline() {
    let mut task = WriteTask::new(1, 4096, 4).unwrap();
    assert_eq!(task.id(), 1);
    assert_eq!(task.status(), TaskStatus::Running);
    assert_eq!(task.poll(0, 30), TaskAction::Emit { offset: 4096, len: 4096 });
    task.completed();
    assert_eq!(task.bytes_written(), 4096);
    assert_eq!(task.poll(12, 30), TaskAction::Emit { offset: 4096 + 16384, len: 4096 });
    task.completed();
    assert_eq!(task.poll(29, 30), TaskAction::Emit { offset: 4096 + 32768, len: 4096 });
    task.completed();
    assert_eq!(task.bytes_written(), 3 * 4096);
    assert_eq!(task.poll(30, 30), TaskAction::Stop);
    assert_eq!(task.status(), TaskStatus::Finished);
    assert_eq!(task.poll(0, 30), TaskAction::Stop);
    assert_eq!(
        task.report(30),
        TaskReport { id: 1, bytes_written: 3 * 4096, elapsed_secs: 30 }
    );
}

#[test]
fn polling_twice_hands_out_the_same_block() {
    let mut task = WriteTask::new(0, 512, 2).unwrap();
    assert_eq!(task.poll(0, 1), TaskAction::Emit { offset: 0, len: 512 });
    assert_eq!(task.poll(0, 1), TaskAction::Emit { offset: 0, len: 512 });
    assert_eq!(task.bytes_written(), 0);
}

#[test]
fn failed_task_stops_and_keeps_its_count() {
    let mut task = WriteTask::new(0, 100, 2).unwrap();
    task.poll(0, 30);
    task.completed();
    task.poll(1, 30);
    task.failed();
    assert_eq!(task.status(), TaskStatus::Failed);
    assert_eq!(task.poll(2, 30), TaskAction::Stop);
    assert_eq!(task.status(), TaskStatus::Failed);
    assert_eq!(task.bytes_written(), 100);
    assert_eq!(task.report(2).bytes_written, 100);
}

#[test]
fn failure_of_one_task_leaves_its_siblings_running() {
    let mut first = WriteTask::new(0, 100, 2).unwrap();
    let mut second = WriteTask::new(1, 100, 2).unwrap();
    first.failed();
    assert_eq!(second.poll(0, 30), TaskAction::Emit { offset: 100, len: 100 });
    second.completed();
    assert_eq!(second.status(), TaskStatus::Running);
    let reports = [first.report(0), second.report(30)];
    assert_eq!(aggregate_throughput(&reports, 30), Some(3));
}

#[test]
fn producer_stops_silently_when_the_channel_closes() {
    let mut task = WriteTask::new(0, 100, 2).unwrap();
    task.poll(0, 30);
    task.channel_closed();
    assert_eq!(task.status(), TaskStatus::Finished);
    assert_eq!(task.poll(1, 30), TaskAction::Stop);
    task.failed();
    task.channel_closed();
    assert_eq!(task.status(), TaskStatus::Failed);
}

#[test]
fn task_outside_the_pool_is_refused() {
    assert!(WriteTask::new(2, 100, 2).is_none());
    assert!(WriteTask::new(3, u64::MAX, 8).is_none());
}

#[test]
fn task_finishes_where_the_next_block_cannot_be_addressed() {
    let mut task = WriteTask::new(1, 1 << 62, 2).unwrap();
    assert_eq!(task.poll(0, 9), TaskAction::Emit { offset: 1 << 62, len: 1 << 62 });
    task.completed();
    assert_eq!(task.status(), TaskStatus::Running);
    assert_eq!(task.bytes_written(), 1 << 62);
    assert_eq!(task.poll(0, 9), TaskAction::Stop);
    assert_eq!(task.status(), TaskStatus::Finished);
    assert_eq!(task.bytes_written(), 1 << 62);
}

#[test]
fn last_addressable_block_is_counted() {
    let mut task = WriteTask::new(0, 1 << 63, 2).unwrap();
    assert_eq!(task.poll(0, 9), TaskAction::Emit { offset: 0, len: 1 << 63 });
    task.completed();
    assert_eq!(task.bytes_written(), 1 << 63);
    assert_eq!(task.status(), TaskStatus::Running);
    assert_eq!(task.poll(0, 9), TaskAction::Stop);
    assert_eq!(task.status(), TaskStatus::Finished);
    task.completed();
    assert_eq!(task.bytes_written(), 1 << 63);
}

#[test]
fn completion_is_ignored_once_the_task_has_stopped() {
    let mut task = WriteTask::new(0, 100, 2).unwrap();
    task.poll(0, 5);
    task.completed();
    assert_eq!(task.poll(5, 5), TaskAction::Stop);
    task.completed();
    assert_eq!(task.bytes_written(), 100);
    let mut failed = WriteTask::new(1, 100, 2).unwrap();
    failed.failed();
    failed.completed();
    assert_eq!(failed.bytes_written(), 0);
}

#[test]
fn offsets_handed_out_by_a_pool_are_all_different() {
    let task_count: u64 = 3;
    let mut offsets: Vec<u64> = Vec::new();
    for id in 0..task_count {
        let mut task = WriteTask::new(id, 64, task_count).unwrap();
        for _ in 0..10 {
            match task.poll(0, 1) {
                TaskAction::Emit { offset, len } => {
                    assert_eq!(len, 64);
                    assert!(!offsets.contains(&offset));
                    offsets.push(offset);
                }
                TaskAction::Stop => panic!("the deadline has not passed"),
            }
            task.completed();
        }
    }
    offsets.sort();
    for (index, offset) in offsets.iter().enumerate() {
        assert_eq!(*offset, index as u64 * 64);
    }
}

#[test]
fn channel_writer_acts_on_what_it_receives() {
    let mut writer = ChannelWriter::new(5);
    let chunk = DataChunk { offset: 8, data: vec![1, 2, 3] };
    assert_eq!(
        writer.on_receive(Ok(DataChunk { offset: 8, data: vec![1, 2, 3] })),
        WriterAction::Write(chunk)
    );
    assert_eq!(writer.on_receive(Err(RecvError::Empty)), WriterAction::Wait);
    assert_eq!(writer.on_receive(Err(RecvError::Closed)), WriterAction::Stop);
    writer.wrote(3);
    writer.wrote(4);
    assert_eq!(writer.report(9), TaskReport { id: 5, bytes_written: 7, elapsed_secs: 9 });
}

#[test]
fn pool_on_a_sink_of_known_rate_shows_that_rate() {
    let block: u64 = 1_048_576;
    let blocks_per_second: u64 = 200;
    let duration: u64 = 30;
    let task_count: u64 = 4;
    let mut tasks: Vec<WriteTask> =
        (0..task_count).map(|id| WriteTask::new(id, block, task_count).unwrap()).collect();
    for second in 0..duration {
        for n in 0..blocks_per_second {
            let task = &mut tasks[(n % task_count) as usize];
            match task.poll(second, duration) {
                TaskAction::Emit { len, .. } => assert_eq!(len, block),
                TaskAction::Stop => panic!("the deadline has not passed"),
            }
            task.completed();
        }
    }
    let mut reports: Vec<TaskReport> = Vec::new();
    for task in tasks.iter_mut() {
        assert_eq!(task.poll(duration, duration), TaskAction::Stop);
        reports.push(task.report(duration));
    }
    assert_eq!(
        aggregate_throughput(&reports, duration),
        Some(blocks_per_second * block)
    );
}
