//! The upload pipeline run end to end over in-memory endpoints: a socket
//! that is a byte slice, a file that is a byte vector, and between them the
//! bounded channel, the reader on one side and the single writer on the
//! other.

use crate::channel::{Channel, ChannelSpec, DataChunk, RecvError, SendError};
use crate::header::{
    copy_range, lemma_missing_delimiter_is_refused, no_delimiter, spec_parse_header, ProtocolError,
    HEADER_LEN,
};
use crate::ingest::{AbortReason, Action, ActionSpec, Connection, Event, Outcome, Phase};
use vstd::prelude::*;

verus! {

/// The bytes that a queue of chunks holds, oldest chunk first.
pub open spec fn payload(q: Seq<DataChunk>) -> Seq<u8>
    decreases q.len(),
{
    if q.len() == 0 {
        Seq::empty()
    } else {
        q[0].data@ + payload(q.skip(1))
    }
}

/// A chunk enqueued at the back adds its bytes at the end of the payload.
pub proof fn lemma_payload_push(q: Seq<DataChunk>, c: DataChunk)
    ensures
        payload(q.push(c)) == payload(q) + c.data@,
    decreases q.len(),
{
    if q.len() == 0 {
        assert(q.push(c).skip(1) =~= Seq::<DataChunk>::empty());
        assert(payload(q.push(c).skip(1)) =~= Seq::<u8>::empty());
        assert(payload(q.push(c)) =~= payload(q) + c.data@);
    } else {
        assert(q.push(c).skip(1) =~= q.skip(1).push(c));
        lemma_payload_push(q.skip(1), c);
        assert(payload(q.push(c)) =~= payload(q) + c.data@);
    }
}

/// Appends `data` to `file`.
pub fn append_bytes(file: &mut Vec<u8>, data: &Vec<u8>)
    ensures
        final(file)@ == old(file)@ + data@,
{
    let mut i: usize = 0;
    while i < data.len()
        invariant
            i <= data@.len(),
            file@ == old(file)@ + data@.take(i as int),
        decreases data@.len() - i,
    {
        file.push(data[i]);
        assert(data@.take(i + 1) =~= data@.take(i as int).push(data@[i as int]));
        assert(file@ =~= old(file)@ + data@.take(i + 1));
        i = i + 1;
    }
    assert(data@.take(data@.len() as int) =~= data@);
}

/// One step of the writer: takes the oldest chunk, if there is one, and
/// appends it to the file. Returns whether a chunk was written; `Closed`
/// and `Empty` tell the writer whether to stop or to wait.
pub fn write_next(channel: &mut Channel, file: &mut Vec<u8>) -> (r: Result<(), RecvError>)
    requires
        old(channel)@.wf(),
    ensures
        final(channel)@ == old(channel)@.recv(),
        final(channel)@.wf(),
        final(file)@ + payload(final(channel)@.queue) == old(file)@ + payload(
            old(channel)@.queue,
        ),
        match r {
            Ok(()) => old(channel)@.queue.len() > 0 && final(file)@ == old(file)@ + old(
                channel,
            )@.queue[0].data@,
            Err(e) => old(channel)@.recv_result() == Err::<DataChunk, RecvError>(e)
                && final(file)@ == old(file)@,
        },
{
    match channel.try_recv() {
        Ok(chunk) => {
            append_bytes(file, &chunk.data);
            assert(final(file)@ + payload(final(channel)@.queue) =~= old(file)@ + payload(
                old(channel)@.queue,
            ));
            Ok(())
        },
        Err(e) => Err(e),
    }
}

/// The reader's side of backpressure: enqueues `chunk`, and where the
/// channel is full lets the writer take the oldest chunk first. Whatever
/// the case, the bytes in the file followed by the bytes in flight grow by
/// exactly the chunk's bytes, at the end.
pub fn forward(channel: &mut Channel, file: &mut Vec<u8>, chunk: DataChunk)
    requires
        old(channel)@.wf(),
        !old(channel)@.closed,
    ensures
        final(channel)@.wf(),
        old(channel)@.queue.len() < old(channel)@.capacity ==> {
            &&& final(channel)@ == old(channel)@.send(chunk)
            &&& final(file)@ == old(file)@
        },
        old(channel)@.queue.len() == old(channel)@.capacity ==> {
            &&& final(channel)@ == old(channel)@.recv().send(chunk)
            &&& final(file)@ == old(file)@ + old(channel)@.queue[0].data@
        },
        final(file)@ + payload(final(channel)@.queue) == old(file)@ + payload(
            old(channel)@.queue,
        ) + chunk.data@,
{
    proof {
        lemma_payload_push(channel@.queue, chunk);
    }
    match channel.try_send(chunk) {
        Ok(()) => {},
        Err(SendError::Full(c)) => {
            let _ = write_next(channel, file);
            proof {
                lemma_payload_push(channel@.queue, c);
            }
            let _ = channel.try_send(c);
            assert(final(file)@ + payload(final(channel)@.queue) =~= old(file)@ + payload(
                old(channel)@.queue,
            ) + chunk.data@);
        },
        Err(SendError::Closed(_)) => {},
    }
}

/// The writer's end of the shutdown: writes out every chunk that is still
/// buffered, oldest first, and leaves the channel empty.
pub fn drain(channel: &mut Channel, file: &mut Vec<u8>)
    requires
        old(channel)@.wf(),
    ensures
        final(channel)@ == (ChannelSpec { queue: Seq::empty(), ..old(channel)@ }),
        final(file)@ == old(file)@ + payload(old(channel)@.queue),
{
    while !channel.is_empty()
        invariant
            channel@.wf(),
            channel@.closed == old(channel)@.closed,
            channel@.capacity == old(channel)@.capacity,
            file@ + payload(channel@.queue) == old(file)@ + payload(old(channel)@.queue),
        decreases channel@.queue.len(),
    {
        let _ = write_next(channel, file);
    }
    assert(file@ + payload(channel@.queue) =~= file@);
    assert(channel@.queue =~= Seq::<DataChunk>::empty());
}

/// A file that an upload left behind.
#[derive(Debug, PartialEq, Eq)]
pub struct StoredFile {
    pub name: Vec<u8>,
    pub content: Vec<u8>,
}

/// What an upload left behind and how it ended.
#[derive(Debug, PartialEq, Eq)]
pub struct Upload {
    /// The file, where one was created.
    pub file: Option<StoredFile>,
    pub result: Result<Outcome, AbortReason>,
}

/// Mathematical content of an `Upload`.
pub ghost struct UploadSpec {
    /// Name and content of the file.
    pub file: Option<(Seq<u8>, Seq<u8>)>,
    pub result: Result<Outcome, AbortReason>,
}

impl View for Upload {
    type V = UploadSpec;

    open spec fn view(&self) -> UploadSpec {
        UploadSpec {
            file: match self.file {
                Some(f) => Some((f.name@, f.content@)),
                None => None,
            },
            result: self.result,
        }
    }
}

/// Number of body bytes that reach the file when the sender offers
/// `offered` bytes and then closes: never more than declared, and nothing
/// when reads are of size zero.
pub open spec fn arriving(declared: u64, offered: nat, chunk_size: usize) -> nat {
    if chunk_size == 0 {
        0
    } else if offered < declared {
        offered
    } else {
        declared as nat
    }
}

/// What an upload comes to. A refused preamble creates no file. Otherwise
/// the file holds, in order, the body bytes that arrived, and the upload is
/// complete exactly when all declared bytes did.
pub open spec fn spec_upload(preamble: Seq<u8>, body: Seq<u8>, chunk_size: usize) -> UploadSpec {
    match spec_parse_header(preamble) {
        Err(e) => UploadSpec { file: None, result: Err(AbortReason::Protocol(e)) },
        Ok(h) => {
            let n = arriving(h.declared_size, body.len(), chunk_size);
            UploadSpec {
                file: Some((h.file_name, body.take(n as int))),
                result: Ok(
                    if n == h.declared_size {
                        Outcome::Complete
                    } else {
                        Outcome::Incomplete { received: n as u64, declared: h.declared_size }
                    },
                ),
            }
        },
    }
}

/// Round trip. Where the sender offers exactly the bytes it declared, the
/// file holds those bytes, all of them and in their order, and the upload
/// is complete.
pub proof fn lemma_upload_round_trip(preamble: Seq<u8>, body: Seq<u8>, chunk_size: usize)
    requires
        chunk_size > 0,
        spec_parse_header(preamble) matches Ok(h) && h.declared_size == body.len(),
    ensures
        spec_upload(preamble, body, chunk_size).result == Ok::<Outcome, AbortReason>(
            Outcome::Complete,
        ),
        spec_upload(preamble, body, chunk_size).file matches Some(f) && f.1 == body,
{
    assert(body.take(body.len() as int) =~= body);
}

/// Early close. Where the sender closes after fewer bytes than it
/// declared, the file holds exactly the bytes that came and the upload is
/// reported as incomplete, never as complete.
pub proof fn lemma_early_close_is_incomplete(preamble: Seq<u8>, body: Seq<u8>, chunk_size: usize)
    requires
        chunk_size > 0,
        spec_parse_header(preamble) matches Ok(h) && body.len() < h.declared_size,
    ensures
        spec_upload(preamble, body, chunk_size).result == Ok::<Outcome, AbortReason>(
            Outcome::Incomplete {
                received: body.len() as u64,
                declared: spec_parse_header(preamble)->Ok_0.declared_size,
            },
        ),
        spec_upload(preamble, body, chunk_size).file matches Some(f) && f.1 == body,
{
    assert(body.take(body.len() as int) =~= body);
}

/// A preamble without delimiter ends the upload before any file is
/// created: nothing is written.
pub proof fn lemma_bad_preamble_writes_nothing(preamble: Seq<u8>, body: Seq<u8>, chunk_size: usize)
    requires
        preamble.len() == HEADER_LEN,
        no_delimiter(preamble),
    ensures
        spec_upload(preamble, body, chunk_size) == (UploadSpec {
            file: None,
            result: Err(AbortReason::Protocol(ProtocolError::FieldCount)),
        }),
{
    lemma_missing_delimiter_is_refused(preamble);
}

/// Runs one upload: `preamble` and then `body` are what the sender puts on
/// the wire before closing; reads take at most `chunk_size` bytes; the
/// channel between reader and writer holds at most `capacity` chunks.
pub fn upload(preamble: &[u8], body: &[u8], chunk_size: usize, capacity: usize) -> (u: Upload)
    requires
        capacity > 0,
    ensures
        u@ == spec_upload(preamble@, body@, chunk_size),
{
    let mut conn = Connection::new(chunk_size);
    let head = copy_range(preamble, 0, preamble.len());
    assert(head@ =~= preamble@);
    match conn.step(Event::Preamble(head)) {
        Action::CreateFile(name) => stream(conn, name, body, capacity),
        Action::Abort(reason) => Upload { file: None, result: Err(reason) },
        _ => Upload { file: None, result: Err(AbortReason::Unexpected) },
    }
}

/// The part of an upload that follows an accepted preamble.
fn stream(conn: Connection, name: Vec<u8>, body: &[u8], capacity: usize) -> (u: Upload)
    requires
        capacity > 0,
        conn@.wf(),
        conn@.phase == Phase::HeaderReceived,
        conn@.received == 0,
    ensures
        u.file matches Some(f) && f.name == name && f.content@ == body@.take(
            arriving(conn@.declared, body@.len(), conn@.chunk_size) as int,
        ),
        u.result == Ok::<Outcome, AbortReason>(
            if arriving(conn@.declared, body@.len(), conn@.chunk_size) == conn@.declared {
                Outcome::Complete
            } else {
                Outcome::Incomplete {
                    received: arriving(conn@.declared, body@.len(), conn@.chunk_size) as u64,
                    declared: conn@.declared,
                }
            },
        ),
{
    let ghost start = conn@;
    let mut conn = conn;
    let mut file: Vec<u8> = Vec::new();
    let mut channel = Channel::new(capacity);
    let mut pos: usize = 0;
    let mut action = conn.step(Event::FileCreated);
    assert(body@.take(0) =~= Seq::<u8>::empty());
    assert(file@ + payload(channel@.queue) =~= body@.take(0));
    loop
        invariant
            conn@.wf(),
            conn@.declared == start.declared,
            conn@.chunk_size == start.chunk_size,
            conn@.received == pos,
            pos <= body@.len(),
            start.chunk_size == 0 ==> pos == 0,
            channel@.wf(),
            !channel@.closed,
            channel@.capacity == capacity,
            file@ + payload(channel@.queue) == body@.take(pos as int),
            (conn@.phase == Phase::Streaming && action@ == (ActionSpec::Receive {
                max: conn@.next_read(),
            }) && pos < start.declared) || (conn@.phase == Phase::Draining && action@
                == ActionSpec::DrainAndSync && pos == arriving(
                start.declared,
                body@.len(),
                start.chunk_size,
            )),
        ensures
            conn@.wf(),
            conn@.declared == start.declared,
            conn@.received == pos,
            pos <= body@.len(),
            channel@.wf(),
            file@ + payload(channel@.queue) == body@.take(pos as int),
            conn@.phase == Phase::Draining,
            pos == arriving(start.declared, body@.len(), start.chunk_size),
        decreases
            body@.len() - pos,
            if conn@.phase == Phase::Streaming {
                1int
            } else {
                0int
            },
    {
        let max: usize = match action {
            Action::Receive { max } => max,
            _ => {
                break ;
            },
        };
        let avail: usize = body.len() - pos;
        let n: usize = if max < avail {
            max
        } else {
            avail
        };
        if n > 0 {
            let data = copy_range(body, pos, pos + n);
            let chunk = DataChunk { offset: pos as u64, data };
            forward(&mut channel, &mut file, chunk);
            assert(body@.take(pos as int) + body@.subrange(pos as int, pos + n) =~= body@.take(
                pos + n,
            ));
            pos = pos + n;
        }
        action = conn.step(Event::Received(n));
    }
    channel.close();
    drain(&mut channel, &mut file);
    let written: u64 = file.len() as u64;
    let report = conn.step(Event::Synced(written));
    let _ = conn.step(Event::Acknowledged);
    let result = match report {
        Action::Report(outcome) => Ok(outcome),
        Action::Abort(reason) => Err(reason),
        _ => Err(AbortReason::Unexpected),
    };
    Upload { file: Some(StoredFile { name, content: file }), result }
}

} // verus!
