//! The channel of the task runtime, as far as a task can use it without
//! waiting. Other tasks send and receive on the same channel at the same
//! time, so what an attempt meets is not known beforehand; the rules that
//! such a channel follows are those of `crate::channel`.

use crate::buffer::{all_zero, create_random_buffer, zeroed, FillStrategy};
use crate::channel::{DataChunk, RecvError, SendError};
use crate::pool::{ChannelWriter, TaskAction, TaskSpec, TaskStatus, WriteTask, WriterAction};
use async_channel::{Receiver, Sender, TryRecvError, TrySendError};
use vstd::prelude::*;

verus! {

/// `async_channel::Sender`, the sending side of the runtime's channel. The
/// verifier sees nothing inside it.
#[verifier::external_type_specification]
#[verifier::external_body]
#[verifier::reject_recursive_types(T)]
pub struct ExSender<T>(async_channel::Sender<T>);

/// `async_channel::Receiver`, the receiving side of the runtime's channel.
/// The verifier sees nothing inside it.
#[verifier::external_type_specification]
#[verifier::external_body]
#[verifier::reject_recursive_types(T)]
pub struct ExReceiver<T>(async_channel::Receiver<T>);

/// One attempt to enqueue, by `async_channel::Sender::try_send`. Whether
/// the chunk is accepted depends on what other tasks do; a refused chunk is
/// handed back as it was offered.
#[verifier::external_body]
fn try_send(tx: &Sender<DataChunk>, chunk: DataChunk) -> (r: Result<(), SendError>)
    ensures
        r matches Err(e) ==> e == SendError::Full(chunk) || e == SendError::Closed(chunk),
{
    match tx.try_send(chunk) {
        Ok(()) => Ok(()),
        Err(TrySendError::Full(c)) => Err(SendError::Full(c)),
        Err(TrySendError::Closed(c)) => Err(SendError::Closed(c)),
    }
}

/// One attempt to dequeue, by `async_channel::Receiver::try_recv`. Nothing
/// is claimed of what comes out.
#[verifier::external_body]
fn try_recv(rx: &Receiver<DataChunk>) -> (r: Result<DataChunk, RecvError>)
{
    match rx.try_recv() {
        Ok(chunk) => Ok(chunk),
        Err(TryRecvError::Empty) => Err(RecvError::Empty),
        Err(TryRecvError::Closed) => Err(RecvError::Closed),
    }
}

/// What became of a producer's turn.
#[derive(Debug, PartialEq, Eq)]
pub enum Turn {
    /// The chunk is in the channel and counted.
    Sent,
    /// The channel is full: the producer has to wait for room and then
    /// report how the send ended.
    Pending(DataChunk),
    /// The producer has left its loop.
    Stopped,
}

/// The producer after a send attempt ended with `result`: an accepted
/// chunk is counted, a closed channel ends the producer without an error,
/// and a full channel changes nothing.
pub open spec fn after_send(task: TaskSpec, result: Result<(), SendError>) -> TaskSpec {
    match result {
        Ok(()) => task.completed(),
        Err(SendError::Full(_)) => task,
        Err(SendError::Closed(_)) => if task.status == TaskStatus::Running {
            TaskSpec { status: TaskStatus::Finished, ..task }
        } else {
            task
        },
    }
}

/// The turn that a send attempt with `result` makes.
pub open spec fn turn_of(result: Result<(), SendError>) -> Turn {
    match result {
        Ok(()) => Turn::Sent,
        Err(SendError::Full(c)) => Turn::Pending(c),
        Err(SendError::Closed(_)) => Turn::Stopped,
    }
}

/// Books the end of a send attempt on the producer.
pub fn settle(task: &mut WriteTask, result: Result<(), SendError>) -> (turn: Turn)
    requires
        old(task).inv(),
    ensures
        final(task).inv(),
        final(task)@ == after_send(old(task)@, result),
        turn == turn_of(result),
{
    match result {
        Ok(()) => {
            task.completed();
            Turn::Sent
        },
        Err(SendError::Full(c)) => Turn::Pending(c),
        Err(SendError::Closed(_)) => {
            task.channel_closed();
            Turn::Stopped
        },
    }
}

/// A chunk of `len` bytes for `offset`, filled as `fill` says.
pub fn fresh_chunk(offset: u64, len: usize, fill: FillStrategy) -> (chunk: DataChunk)
    requires
        len <= isize::MAX,
    ensures
        chunk.offset == offset,
        chunk.data@.len() == len,
        fill == FillStrategy::Zero ==> all_zero(chunk.data@),
{
    let data = match fill {
        FillStrategy::Zero => zeroed(len),
        FillStrategy::Random => create_random_buffer(len),
    };
    DataChunk { offset, data }
}

/// One turn of a producer. At the top of its loop it decides whether to go
/// on; if so it fills a fresh chunk of one block for its next offset and
/// offers it to the channel. A block too large for a buffer fails the
/// task.
///
/// When the turn is over, the producer has stopped exactly where `poll`
/// said so, the buffer could not be made or the channel was closed;
/// otherwise the chunk for the next offset was either sent and counted, or
/// is handed back to be sent once there is room.
pub fn produce(
    task: &mut WriteTask,
    tx: &Sender<DataChunk>,
    fill: FillStrategy,
    elapsed_secs: u64,
    duration_secs: u64,
) -> (turn: Turn)
    requires
        old(task).inv(),
    ensures
        final(task).inv(),
        old(task)@.action(elapsed_secs, duration_secs) == TaskAction::Stop ==> turn == Turn::Stopped
            && final(task)@ == old(task)@.polled(elapsed_secs, duration_secs),
        old(task)@.action(elapsed_secs, duration_secs) != TaskAction::Stop && old(
            task,
        )@.block_size > isize::MAX ==> turn == Turn::Stopped && final(task)@ == (TaskSpec {
            status: TaskStatus::Failed,
            ..old(task)@
        }),
        old(task)@.action(elapsed_secs, duration_secs) != TaskAction::Stop && old(
            task,
        )@.block_size <= isize::MAX ==> {
            ||| turn == Turn::Sent && final(task)@ == old(task)@.completed()
            ||| turn == Turn::Stopped && final(task)@ == (TaskSpec {
                status: TaskStatus::Finished,
                ..old(task)@
            })
            ||| (turn matches Turn::Pending(chunk) && {
                &&& final(task)@ == old(task)@
                &&& chunk.offset == old(task)@.next_offset()
                &&& chunk.data@.len() == old(task)@.block_size
                &&& fill == FillStrategy::Zero ==> all_zero(chunk.data@)
            })
        },
{
    match task.poll(elapsed_secs, duration_secs) {
        TaskAction::Stop => Turn::Stopped,
        TaskAction::Emit { offset, len } => {
            if len > isize::MAX as u64 {
                task.failed();
                return Turn::Stopped;
            }
            let chunk = fresh_chunk(offset, len as usize, fill);
            let result = try_send(tx, chunk);
            settle(task, result)
        },
    }
}

/// One turn of a writer on the channel: what to do with whatever the
/// channel holds for it right now.
pub fn consume(writer: &ChannelWriter, rx: &Receiver<DataChunk>) -> (action: WriterAction)
{
    let received = try_recv(rx);
    writer.on_receive(received)
}

} // verus!
