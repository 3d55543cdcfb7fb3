//! The workers of a run: tasks that walk their stride of the file until the
//! deadline, either writing each block themselves or sending it down the
//! channel, and the writers that take chunks off the channel.

use crate::channel::{DataChunk, RecvError};
use crate::stride::{offset_of, Stride};
use crate::throughput::TaskReport;
use vstd::prelude::*;

verus! {

/// Whether the deadline of a run has passed: checked before each block,
/// never during one.
pub fn deadline_reached(elapsed_secs: u64, duration_secs: u64) -> (r: bool)
    ensures
        r == (elapsed_secs >= duration_secs),
{
    elapsed_secs >= duration_secs
}

/// How a task stands.
#[derive(Clone, Copy, Debug, PartialEq, Eq, Structural)]
pub enum TaskStatus {
    Running,
    /// The deadline passed, the channel was closed or the file's end of
    /// range was reached.
    Finished,
    /// A seek or a write failed; its siblings go on.
    Failed,
}

/// What a task does next.
#[derive(Clone, Copy, Debug, PartialEq, Eq, Structural)]
pub enum TaskAction {
    /// Write, or send, one block of `len` bytes for this offset.
    Emit { offset: u64, len: u64 },
    /// Leave the loop and report.
    Stop,
}

/// One task of the pool.
pub struct WriteTask {
    id: u64,
    stride: Stride,
    block_size: u64,
    bytes_written: u64,
    /// Set once the stride could not move on: the block after the last
    /// one lies beyond the addressable range.
    exhausted: bool,
    status: TaskStatus,
}

/// Mathematical state of a task.
pub ghost struct TaskSpec {
    pub id: nat,
    pub task_count: nat,
    pub block_size: nat,
    /// Blocks written or sent so far.
    pub blocks: nat,
    pub bytes_written: nat,
    pub status: TaskStatus,
}

impl TaskSpec {
    /// Offset of the block that comes next.
    pub open spec fn next_offset(self) -> nat {
        offset_of(self.id, self.blocks, self.block_size, self.task_count)
    }

    /// The task is one of the pool and has counted every block it
    /// finished.
    pub open spec fn wf(self) -> bool {
        &&& self.id < self.task_count
        &&& self.bytes_written == self.blocks * self.block_size
    }

    /// Whether the next block lies within the addressable range.
    pub open spec fn block_fits(self) -> bool {
        self.next_offset() + self.block_size <= u64::MAX
    }

    /// What the task does at the top of its loop: the next block, while it
    /// runs, the deadline has not passed and the block can be addressed.
    pub open spec fn action(self, elapsed_secs: u64, duration_secs: u64) -> TaskAction {
        if self.status == TaskStatus::Running && elapsed_secs < duration_secs
            && self.block_fits() {
            TaskAction::Emit { offset: self.next_offset() as u64, len: self.block_size as u64 }
        } else {
            TaskAction::Stop
        }
    }

    /// The task after the top of its loop: a running task that is told to
    /// stop is finished.
    pub open spec fn polled(self, elapsed_secs: u64, duration_secs: u64) -> TaskSpec {
        if self.status == TaskStatus::Running && self.action(elapsed_secs, duration_secs)
            == TaskAction::Stop {
            TaskSpec { status: TaskStatus::Finished, ..self }
        } else {
            self
        }
    }

    /// The task after the block handed out last was written or sent.
    pub open spec fn completed(self) -> TaskSpec {
        if self.status == TaskStatus::Running && self.block_fits() {
            TaskSpec {
                blocks: self.blocks + 1,
                bytes_written: self.bytes_written + self.block_size,
                ..self
            }
        } else {
            self
        }
    }
}

/// A task never counts more bytes than lie before its next block.
pub proof fn lemma_count_is_below_offset(t: TaskSpec)
    requires
        t.wf(),
    ensures
        t.bytes_written <= t.next_offset(),
{
    let bs = t.block_size;
    let k = t.blocks;
    let n = t.task_count;
    assert(k * bs <= k * (bs * n)) by (nonlinear_arith)
        requires
            n >= 1,
    ;
}

impl View for WriteTask {
    type V = TaskSpec;

    closed spec fn view(&self) -> TaskSpec {
        TaskSpec {
            id: self.id as nat,
            task_count: self.stride.task_count(),
            block_size: self.block_size as nat,
            blocks: if self.exhausted {
                self.stride.round() + 1
            } else {
                self.stride.round()
            },
            bytes_written: self.bytes_written as nat,
            status: self.status,
        }
    }
}

impl WriteTask {
    /// The representation agrees with the state it stands for.
    pub closed spec fn inv(&self) -> bool {
        &&& self.stride.wf()
        &&& self.stride.task() == self.id
        &&& self.stride.block_size() == self.block_size
        &&& self@.wf()
        &&& self.exhausted ==> self@.next_offset() > u64::MAX
    }

    /// Task `id` of a pool of `task_count`, at its first block.
    ///
    /// `None` exactly when `id` is not in the pool or the first offset does
    /// not fit in 64 bits.
    pub fn new(id: u64, block_size: u64, task_count: u64) -> (r: Option<WriteTask>)
        ensures
            r.is_some() <==> (id < task_count && id as nat * block_size as nat <= u64::MAX),
            r matches Some(t) ==> t.inv() && t@ == (TaskSpec {
                id: id as nat,
                task_count: task_count as nat,
                block_size: block_size as nat,
                blocks: 0,
                bytes_written: 0,
                status: TaskStatus::Running,
            }),
    {
        match Stride::new(id, block_size, task_count) {
            Some(stride) => {
                proof {
                    stride.lemma_wf();
                    assert(0 * block_size as nat == 0) by (nonlinear_arith);
                }
                Some(
                    WriteTask {
                        id,
                        stride,
                        block_size,
                        bytes_written: 0,
                        exhausted: false,
                        status: TaskStatus::Running,
                    },
                )
            },
            None => None,
        }
    }

    pub fn id(&self) -> (r: u64)
        ensures
            r == self@.id,
    {
        self.id
    }

    pub fn status(&self) -> (r: TaskStatus)
        ensures
            r == self@.status,
    {
        self.status
    }

    pub fn bytes_written(&self) -> (r: u64)
        ensures
            r == self@.bytes_written,
    {
        self.bytes_written
    }

    /// The decision at the top of the loop. A running task whose deadline
    /// has passed, or whose next block cannot be addressed, is finished.
    pub fn poll(&mut self, elapsed_secs: u64, duration_secs: u64) -> (a: TaskAction)
        requires
            old(self).inv(),
        ensures
            final(self).inv(),
            a == old(self)@.action(elapsed_secs, duration_secs),
            final(self)@ == old(self)@.polled(elapsed_secs, duration_secs),
    {
        proof {
            self.stride.lemma_wf();
        }
        match self.status {
            TaskStatus::Running => {
                if deadline_reached(elapsed_secs, duration_secs) || self.exhausted {
                    self.status = TaskStatus::Finished;
                    return TaskAction::Stop;
                }
                let offset = self.stride.current();
                match offset.checked_add(self.block_size) {
                    Some(_) => TaskAction::Emit { offset, len: self.block_size },
                    None => {
                        self.status = TaskStatus::Finished;
                        TaskAction::Stop
                    },
                }
            },
            _ => TaskAction::Stop,
        }
    }

    /// Records that the block handed out by `poll` was written or sent: it
    /// is counted, and the task moves one step along its stride. Nothing
    /// changes for a task that does not run or has no block to write.
    pub fn completed(&mut self)
        requires
            old(self).inv(),
        ensures
            final(self).inv(),
            final(self)@ == old(self)@.completed(),
    {
        proof {
            self.stride.lemma_wf();
            lemma_count_is_below_offset(self@);
            let k = self.stride.round();
            let bs = self.block_size as nat;
            assert((k + 1) * bs == k * bs + bs) by (nonlinear_arith);
        }
        match self.status {
            TaskStatus::Running => {
                if self.exhausted {
                    return ;
                }
                if self.stride.current().checked_add(self.block_size).is_none() {
                    return ;
                }
                self.bytes_written = self.bytes_written + self.block_size;
                if !self.stride.advance() {
                    self.exhausted = true;
                }
                proof {
                    self.stride.lemma_wf();
                }
            },
            _ => {},
        }
    }

    /// Records that a seek or a write failed: the worker stops, with what it
    /// wrote before still counted.
    pub fn failed(&mut self)
        requires
            old(self).inv(),
        ensures
            final(self).inv(),
            final(self)@ == (TaskSpec { status: TaskStatus::Failed, ..old(self)@ }),
    {
        self.status = TaskStatus::Failed;
    }

    /// Records that the channel was closed under a producer: it stops
    /// without an error.
    pub fn channel_closed(&mut self)
        requires
            old(self).inv(),
        ensures
            final(self).inv(),
            final(self)@ == (TaskSpec {
                status: if old(self)@.status == TaskStatus::Running {
                    TaskStatus::Finished
                } else {
                    old(self)@.status
                },
                ..old(self)@
            }),
    {
        match self.status {
            TaskStatus::Running => {
                self.status = TaskStatus::Finished;
            },
            _ => {},
        }
    }

    /// What the task reports: its bytes, failed or not, and its own time.
    pub fn report(&self, elapsed_secs: u64) -> (r: TaskReport)
        ensures
            r.id == self@.id,
            r.bytes_written == self@.bytes_written,
            r.elapsed_secs == elapsed_secs,
    {
        TaskReport { id: self.id, bytes_written: self.bytes_written, elapsed_secs }
    }
}

/// What a writer on the channel does with the result of a receive.
#[derive(Debug, PartialEq, Eq)]
pub enum WriterAction {
    /// Seek to the chunk's offset and write its bytes.
    Write(DataChunk),
    /// Nothing is buffered yet: wait for a chunk.
    Wait,
    /// The channel is closed and empty: report and leave.
    Stop,
}

/// A writer that takes chunks off the channel and counts what it wrote.
pub struct ChannelWriter {
    id: u64,
    bytes_written: u64,
}

impl ChannelWriter {
    pub closed spec fn id(&self) -> nat {
        self.id as nat
    }

    pub closed spec fn bytes_written(&self) -> nat {
        self.bytes_written as nat
    }

    pub fn new(id: u64) -> (w: ChannelWriter)
        ensures
            w.id() == id,
            w.bytes_written() == 0,
    {
        ChannelWriter { id, bytes_written: 0 }
    }

    /// Turns the result of a receive into the writer's next action: a
    /// chunk is written as it came, an empty channel is waited for, a
    /// closed one ends the writer.
    pub fn on_receive(&self, received: Result<DataChunk, RecvError>) -> (a: WriterAction)
        ensures
            a == match received {
                Ok(chunk) => WriterAction::Write(chunk),
                Err(RecvError::Empty) => WriterAction::Wait,
                Err(RecvError::Closed) => WriterAction::Stop,
            },
    {
        match received {
            Ok(chunk) => WriterAction::Write(chunk),
            Err(RecvError::Empty) => WriterAction::Wait,
            Err(RecvError::Closed) => WriterAction::Stop,
        }
    }

    /// Counts `len` bytes as written. The count stops at the largest
    /// 64-bit number.
    pub fn wrote(&mut self, len: usize)
        ensures
            final(self).id() == old(self).id(),
            final(self).bytes_written() == if old(self).bytes_written() + len <= u64::MAX {
                old(self).bytes_written() + len
            } else {
                u64::MAX as int
            },
    {
        self.bytes_written = self.bytes_written.saturating_add(len as u64);
    }

    pub fn report(&self, elapsed_secs: u64) -> (r: TaskReport)
        ensures
            r.id == self.id(),
            r.bytes_written == self.bytes_written(),
            r.elapsed_secs == elapsed_secs,
    {
        TaskReport { id: self.id, bytes_written: self.bytes_written, elapsed_secs }
    }
}

} // verus!
