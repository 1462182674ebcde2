//! The relay of bytes from the TLS connection to the container.
//!
//! A reader takes chunks from the connection and hands them to a channel; a
//! writer takes them from the channel and writes them to the socket. The channel
//! is a queue without bound, so that the pace of the container never shows on
//! the side of the connection. Each side counts its bytes.

use vstd::prelude::*;
use vstd::seq_lib::lemma_flatten_concat;
use vstd::slice::{slice_subrange, slice_to_vec};

verus! {

/// The size of the buffer into which the reader reads.
pub const READ_BUFFER_SIZE: usize = 64 * 1024;

/// Bytes in a mebibyte.
pub const MEBIBYTE: u64 = 1024 * 1024;

/// Progress is told at multiples of this many bytes.
pub const PROGRESS_STEP: u64 = 100 * 1024 * 1024;

/// The number of bytes in a series of chunks.
pub open spec fn byte_count(chunks: Seq<Seq<u8>>) -> nat {
    chunks.flatten().len()
}

/// Whether no chunk is empty.
pub open spec fn none_empty(chunks: Seq<Seq<u8>>) -> bool {
    forall|i: int| 0 <= i < chunks.len() ==> (#[trigger] chunks[i]).len() > 0
}

/// Whether no chunk is longer than the buffer into which the reader reads.
pub open spec fn fit_buffer(chunks: Seq<Seq<u8>>) -> bool {
    forall|i: int|
        0 <= i < chunks.len() ==> (#[trigger] chunks[i]).len() <= READ_BUFFER_SIZE
}

/// What is told at a count of `total` bytes: the count in mebibytes, at whole
/// steps only.
pub open spec fn progress_at(total: int) -> Option<int> {
    if total % PROGRESS_STEP as int == 0 {
        Some(total / MEBIBYTE as int)
    } else {
        None
    }
}

/// What is told at a count of `total` bytes.
pub fn progress(total: u64) -> (r: Option<u64>)
    ensures
        match progress_at(total as int) {
            Some(megabytes) => r matches Some(told) && told == megabytes,
            None => r is None,
        },
        r matches Some(told) ==> told * 1048576 == total,
        r is Some <==> total % 104857600 == 0,
{
    if total % PROGRESS_STEP == 0 {
        Some(total / MEBIBYTE)
    } else {
        None
    }
}

/// Progress is told in full: at every multiple of 104857600 bytes, at no other
/// count, and what is told is the whole count, in mebibytes.
pub proof fn progress_tells_the_count(total: int)
    requires
        total >= 0,
    ensures
        progress_at(total) is Some <==> total % 104857600 == 0,
        progress_at(total) matches Some(told) ==> told * 1048576 == total,
{
}

/// What is told grows with the count, by 100 from one step to the next.
pub proof fn progress_grows(earlier: int, later: int)
    requires
        0 <= earlier < later,
    ensures
        progress_at(earlier) matches Some(before) ==> (progress_at(later) matches Some(after)
            ==> before < after),
        progress_at(earlier) matches Some(before) ==> progress_at(earlier + 104857600) == Some(
            before + 100,
        ),
{
    let next = earlier + 104857600;
    if earlier % 104857600 == 0 {
        assert(next % 104857600 == 0);
        assert(next / 1048576 == earlier / 1048576 + 100);
    }
}

/// What the reader does with what it has read.
#[derive(Debug)]
pub enum ReadStep {
    /// The client has disconnected: stop.
    Stop,
    /// Hand this chunk to the channel.
    Send(Vec<u8>),
}

/// What the reader does after handing a chunk to the channel.
#[derive(Clone, Copy, Debug, PartialEq, Eq, Structural)]
pub enum SendStep {
    /// Nobody takes chunks any more: stop.
    Stop,
    /// Read on, without waiting, and tell the progress if there is some.
    Read(Option<u64>),
}

/// The count of the reader.
pub struct Reader {
    total_bytes: u64,
    handed: Ghost<Seq<Seq<u8>>>,
}

impl Reader {
    #[verifier::type_invariant]
    spec fn counts(self) -> bool {
        &&& self.total_bytes == byte_count(self.handed@)
        &&& none_empty(self.handed@)
        &&& fit_buffer(self.handed@)
    }

    /// The chunks that were to be handed to the channel, in order.
    pub closed spec fn handed(&self) -> Seq<Seq<u8>> {
        self.handed@
    }

    /// A reader that has read nothing.
    pub fn new() -> (r: Reader)
        ensures
            r.handed() == Seq::<Seq<u8>>::empty(),
    {
        Reader { total_bytes: 0, handed: Ghost(Seq::empty()) }
    }

    /// The number of bytes read so far.
    pub fn total_bytes(&self) -> (r: u64)
        ensures
            r == byte_count(self.handed()),
            none_empty(self.handed()),
            fit_buffer(self.handed()),
    {
        proof {
            use_type_invariant(self);
        }
        self.total_bytes
    }

    /// Takes note that the first `bytes_read` bytes of `buffer` were read.
    /// What it hands on is never empty and never longer than the buffer.
    pub fn on_read(&mut self, buffer: &[u8; READ_BUFFER_SIZE], bytes_read: usize) -> (r: ReadStep)
        requires
            bytes_read <= READ_BUFFER_SIZE,
            byte_count(old(self).handed()) + bytes_read <= u64::MAX,
        ensures
            bytes_read == 0 ==> {
                &&& r is Stop
                &&& final(self).handed() == old(self).handed()
                &&& forall|state: RelayState|
                    state.handed == old(self).handed() ==> (#[trigger] relay_next(
                        state,
                        RelayEvent::Disconnected,
                    )).handed == final(self).handed()
            },
            bytes_read > 0 ==> {
                &&& r matches ReadStep::Send(chunk)
                &&& chunk@ == buffer@.take(bytes_read as int)
                &&& final(self).handed() == old(self).handed().push(chunk@)
                &&& byte_count(final(self).handed()) == byte_count(old(self).handed()) + bytes_read
                &&& forall|state: RelayState|
                    state.handed == old(self).handed() && state.reader is Running ==> (
                    #[trigger] relay_next(state, RelayEvent::Received(chunk@))).handed
                        == final(self).handed()
            },
            r matches ReadStep::Send(chunk) ==> 1 <= chunk@.len() <= READ_BUFFER_SIZE,
            none_empty(final(self).handed()),
            fit_buffer(final(self).handed()),
    {
        proof {
            use_type_invariant(&*self);
        }
        if bytes_read == 0 {
            return ReadStep::Stop;
        }
        let chunk = slice_to_vec(slice_subrange(buffer.as_slice(), 0, bytes_read));
        let ghost handed = self.handed@.push(chunk@);
        proof {
            old(self).handed@.lemma_flatten_push(chunk@);
        }
        let total_bytes: u64 = self.total_bytes + bytes_read as u64;
        *self = Reader { total_bytes, handed: Ghost(handed) };
        ReadStep::Send(chunk)
    }

    /// Decides what follows after a chunk was handed to the channel, which took
    /// it or not.
    pub fn on_sent(&self, accepted: bool) -> (r: SendStep)
        ensures
            !accepted ==> r is Stop,
            accepted ==> {
                &&& r matches SendStep::Read(told)
                &&& match progress_at(byte_count(self.handed()) as int) {
                    Some(megabytes) => told matches Some(value) && value == megabytes,
                    None => told is None,
                }
                &&& told is Some <==> byte_count(self.handed()) % 104857600 == 0
                &&& told matches Some(value) ==> value * 1048576 == byte_count(self.handed())
            },
            forall|state: RelayState, chunk: Seq<u8>|
                state.reader is Running && (state.writer is Running) == accepted ==> ((
                #[trigger] relay_next(state, RelayEvent::Received(chunk))).reader is Running) == (
                r is Read),
    {
        proof {
            use_type_invariant(self);
        }
        if accepted {
            SendStep::Read(progress(self.total_bytes))
        } else {
            SendStep::Stop
        }
    }

    /// How the reader ended: with an error, or in order with its count.
    pub fn outcome(&self, failed: bool) -> (r: TaskOutcome)
        ensures
            failed ==> r is Failed,
            !failed ==> (r matches TaskOutcome::Finished(bytes) && bytes == byte_count(
                self.handed(),
            )),
            r == outcome_of(
                if failed {
                    Side::Failed
                } else {
                    Side::Finished
                },
                byte_count(self.handed()) as u64,
            ),
    {
        proof {
            use_type_invariant(self);
        }
        if failed {
            TaskOutcome::Failed
        } else {
            TaskOutcome::Finished(self.total_bytes)
        }
    }
}

/// What the writer does after trying to write a chunk.
#[derive(Clone, Copy, Debug, PartialEq, Eq, Structural)]
pub enum WriteStep {
    /// The container takes no more: stop, and let go of the channel.
    Stop,
    /// Wait for the next chunk, and tell the progress if there is some.
    Next(Option<u64>),
}

/// The count of the writer.
pub struct Writer {
    total_bytes: u64,
    written: Ghost<Seq<Seq<u8>>>,
}

impl Writer {
    #[verifier::type_invariant]
    spec fn counts(self) -> bool {
        self.total_bytes == byte_count(self.written@)
    }

    /// The chunks that were written to the container, in order.
    pub closed spec fn written(&self) -> Seq<Seq<u8>> {
        self.written@
    }

    /// A writer that has written nothing.
    pub fn new() -> (r: Writer)
        ensures
            r.written() == Seq::<Seq<u8>>::empty(),
    {
        Writer { total_bytes: 0, written: Ghost(Seq::empty()) }
    }

    /// The number of bytes written so far.
    pub fn total_bytes(&self) -> (r: u64)
        ensures
            r == byte_count(self.written()),
    {
        proof {
            use_type_invariant(self);
        }
        self.total_bytes
    }

    /// Takes note that `chunk` was written, or that writing it failed. A chunk
    /// counts only once it is written.
    pub fn on_write(&mut self, chunk: &[u8], succeeded: bool) -> (r: WriteStep)
        requires
            succeeded ==> byte_count(old(self).written()) + chunk@.len() <= u64::MAX,
        ensures
            !succeeded ==> {
                &&& r is Stop
                &&& final(self).written() == old(self).written()
                &&& forall|state: RelayState, crashed: bool|
                    state.written == old(self).written() ==> (#[trigger] relay_next(
                        state,
                        RelayEvent::WriterBroke { crashed },
                    )).written == final(self).written()
            },
            succeeded ==> {
                &&& r matches WriteStep::Next(told)
                &&& match progress_at(byte_count(final(self).written()) as int) {
                    Some(megabytes) => told matches Some(value) && value == megabytes,
                    None => told is None,
                }
                &&& told is Some <==> byte_count(final(self).written()) % 104857600 == 0
                &&& told matches Some(value) ==> value * 1048576 == byte_count(
                    final(self).written(),
                )
                &&& final(self).written() == old(self).written().push(chunk@)
                &&& byte_count(final(self).written()) == byte_count(old(self).written())
                    + chunk@.len()
                &&& forall|state: RelayState|
                    state.written == old(self).written() && state.queue.len() > 0
                        && state.queue.first() == chunk@ ==> (#[trigger] relay_next(
                        state,
                        RelayEvent::Forwarded,
                    )).written == final(self).written()
            },
    {
        proof {
            use_type_invariant(&*self);
        }
        if !succeeded {
            return WriteStep::Stop;
        }
        let ghost written = self.written@.push(chunk@);
        proof {
            old(self).written@.lemma_flatten_push(chunk@);
        }
        let total_bytes: u64 = self.total_bytes + chunk.len() as u64;
        *self = Writer { total_bytes, written: Ghost(written) };
        WriteStep::Next(progress(total_bytes))
    }

    /// How the writer ended: with an error, or in order with its count, because
    /// the channel is empty and nothing can come any more.
    pub fn outcome(&self, failed: bool) -> (r: TaskOutcome)
        ensures
            failed ==> r is Failed,
            !failed ==> (r matches TaskOutcome::Finished(bytes) && bytes == byte_count(
                self.written(),
            )),
            r == outcome_of(
                if failed {
                    Side::Failed
                } else {
                    Side::Finished
                },
                byte_count(self.written()) as u64,
            ),
    {
        proof {
            use_type_invariant(self);
        }
        if failed {
            TaskOutcome::Failed
        } else {
            TaskOutcome::Finished(self.total_bytes)
        }
    }
}

/// How one side of a relay ended.
#[derive(Clone, Copy, Debug, PartialEq, Eq, Structural)]
pub enum TaskOutcome {
    /// It ended in order, having counted this many bytes.
    Finished(u64),
    /// It ended with an error.
    Failed,
    /// It did not end by itself.
    Crashed,
}

/// Which side broke a relay, and how.
#[derive(Clone, Copy, Debug, PartialEq, Eq, Structural)]
pub enum RelayError {
    ReaderCrashed,
    ReaderFailed,
    WriterCrashed,
    WriterFailed,
}

impl RelayError {
    /// What is told of the error; nothing where the cause speaks for itself.
    pub open spec fn spec_message(self) -> Option<Seq<char>> {
        match self {
            RelayError::ReaderCrashed => Some("TLS reader failed"@),
            RelayError::WriterCrashed => Some("Unix writer failed"@),
            RelayError::WriterFailed => Some("Failed to write to container"@),
            RelayError::ReaderFailed => None,
        }
    }

    /// What is told of the error; nothing where the cause speaks for itself.
    pub fn message(self) -> (r: Option<&'static str>)
        ensures
            match self.spec_message() {
                Some(message) => r matches Some(text) && text@ == message,
                None => r is None,
            },
            self is ReaderCrashed ==> (r matches Some(text) && text@ == "TLS reader failed"@),
            self is WriterCrashed ==> (r matches Some(text) && text@ == "Unix writer failed"@),
            self is WriterFailed ==> (r matches Some(text) && text@
                == "Failed to write to container"@),
            self is ReaderFailed <==> r is None,
    {
        match self {
            RelayError::ReaderCrashed => Some("TLS reader failed"),
            RelayError::WriterCrashed => Some("Unix writer failed"),
            RelayError::WriterFailed => Some("Failed to write to container"),
            RelayError::ReaderFailed => None,
        }
    }
}

/// What is told of a transfer that failed, where `client` names the client.
pub fn forwarding_failed_message(client: &str) -> (r: String)
    ensures
        r@ == "Data forwarding failed for "@ + client@,
{
    let mut text = "Data forwarding failed for ".to_owned();
    text.append(client);
    text
}

/// The outcome of a relay of which both sides ended in order.
#[derive(Clone, Copy, Debug, PartialEq, Eq, Structural)]
pub struct TransferReport {
    /// Whole mebibytes that were received.
    pub received_mb: u64,
    /// Whole mebibytes that were forwarded.
    pub forwarded_mb: u64,
    /// Whether the two counts of bytes differ.
    pub mismatch: bool,
}

/// The outcome of a relay by the outcomes of its sides. Where both broke, the
/// reader is named.
pub open spec fn relay_outcome(reader: TaskOutcome, writer: TaskOutcome) -> Result<
    TransferReport,
    RelayError,
> {
    match (reader, writer) {
        (TaskOutcome::Crashed, _) => Err(RelayError::ReaderCrashed),
        (TaskOutcome::Failed, _) => Err(RelayError::ReaderFailed),
        (TaskOutcome::Finished(_), TaskOutcome::Crashed) => Err(RelayError::WriterCrashed),
        (TaskOutcome::Finished(_), TaskOutcome::Failed) => Err(RelayError::WriterFailed),
        (TaskOutcome::Finished(received), TaskOutcome::Finished(forwarded)) => Ok(
            TransferReport {
                received_mb: received / MEBIBYTE,
                forwarded_mb: forwarded / MEBIBYTE,
                mismatch: received != forwarded,
            },
        ),
    }
}

/// Concludes a relay from how its two sides ended.
pub fn conclude(reader: TaskOutcome, writer: TaskOutcome) -> (r: Result<TransferReport, RelayError>)
    ensures
        r == relay_outcome(reader, writer),
        r is Ok <==> reader is Finished && writer is Finished,
        reader matches TaskOutcome::Finished(received) ==> (writer matches TaskOutcome::Finished(
            forwarded,
        ) ==> (r matches Ok(report) && {
            &&& report.received_mb * 1048576 <= received < (report.received_mb + 1) * 1048576
            &&& report.forwarded_mb * 1048576 <= forwarded < (report.forwarded_mb + 1) * 1048576
            &&& report.mismatch <==> received != forwarded
        })),
{
    let received = match reader {
        TaskOutcome::Finished(received) => received,
        TaskOutcome::Failed => return Err(RelayError::ReaderFailed),
        TaskOutcome::Crashed => return Err(RelayError::ReaderCrashed),
    };
    let forwarded = match writer {
        TaskOutcome::Finished(forwarded) => forwarded,
        TaskOutcome::Failed => return Err(RelayError::WriterFailed),
        TaskOutcome::Crashed => return Err(RelayError::WriterCrashed),
    };
    Ok(
        TransferReport {
            received_mb: received / MEBIBYTE,
            forwarded_mb: forwarded / MEBIBYTE,
            mismatch: received != forwarded,
        },
    )
}

/// The report is true to the counts: each number of mebibytes is the largest that
/// fits in the count of bytes, and a mismatch is told exactly if the counts differ
/// by as little as a byte.
pub proof fn report_tells_the_counts(received: u64, forwarded: u64)
    ensures
        relay_outcome(TaskOutcome::Finished(received), TaskOutcome::Finished(forwarded)) matches Ok(
            report,
        ) && {
            &&& report.received_mb * 1048576 <= received < (report.received_mb + 1) * 1048576
            &&& report.forwarded_mb * 1048576 <= forwarded < (report.forwarded_mb + 1) * 1048576
            &&& report.mismatch <==> received != forwarded
        },
{
}

/// Each side is reported by its own count alone: more bytes are never reported as
/// fewer mebibytes, and a mebibyte more as one more, whatever the other side
/// counted.
pub proof fn report_grows_with_the_count(fewer: u64, more: u64, first: u64, second: u64)
    requires
        fewer <= more,
    ensures
        ({
            let finished = |bytes: u64| TaskOutcome::Finished(bytes);
            &&& relay_outcome(finished(fewer), finished(first)) matches Ok(small)
            &&& relay_outcome(finished(more), finished(second)) matches Ok(large)
            &&& relay_outcome(finished(first), finished(fewer)) matches Ok(small_out)
            &&& relay_outcome(finished(second), finished(more)) matches Ok(large_out)
            &&& small.received_mb <= large.received_mb
            &&& small_out.forwarded_mb <= large_out.forwarded_mb
            &&& more - fewer == 1048576 ==> large.received_mb == small.received_mb + 1
                && large_out.forwarded_mb == small_out.forwarded_mb + 1
        }),
{
}

/// A relay is reported as broken exactly if a side broke; a broken reader is
/// named whatever the writer did, and a broken writer only where the reader
/// finished.
pub proof fn broken_side_is_named(reader: TaskOutcome, writer: TaskOutcome)
    ensures
        relay_outcome(reader, writer) is Ok <==> reader is Finished && writer is Finished,
        relay_outcome(reader, writer) == Err::<TransferReport, RelayError>(
            RelayError::ReaderCrashed,
        ) <==> reader is Crashed,
        relay_outcome(reader, writer) == Err::<TransferReport, RelayError>(
            RelayError::ReaderFailed,
        ) <==> reader is Failed,
        relay_outcome(reader, writer) == Err::<TransferReport, RelayError>(
            RelayError::WriterCrashed,
        ) <==> reader is Finished && writer is Crashed,
        relay_outcome(reader, writer) == Err::<TransferReport, RelayError>(
            RelayError::WriterFailed,
        ) <==> reader is Finished && writer is Failed,
{
}

/// Counting is adding up: nothing counts as 0, and a chunk more counts as many
/// bytes more as it has. A chunk fits the buffer exactly if it has at most 65536
/// bytes.
pub proof fn every_byte_counts(chunks: Seq<Seq<u8>>, chunk: Seq<u8>)
    ensures
        byte_count(Seq::<Seq<u8>>::empty()) == 0,
        byte_count(chunks.push(chunk)) == byte_count(chunks) + chunk.len(),
        byte_count(chunks) == chunks.flatten().len(),
        fit_buffer(seq![chunk]) <==> chunk.len() <= 65536,
        none_empty(seq![chunk]) <==> chunk.len() >= 1,
        READ_BUFFER_SIZE == 65536,
{
    chunks.lemma_flatten_push(chunk);
    assert(seq![chunk][0] == chunk);
}

/// Where one side of a relay stands.
pub enum Side {
    /// It goes on.
    Running,
    /// It ended in order.
    Finished,
    /// It ended with an error.
    Failed,
    /// It did not end by itself.
    Crashed,
}

/// A relay as a whole: what the reader has handed to the channel, what waits in
/// the channel, what the writer has written, and where the two stand.
pub struct RelayState {
    /// The chunks that the reader counted, in order.
    pub handed: Seq<Seq<u8>>,
    /// The chunks that wait in the channel.
    pub queue: Seq<Seq<u8>>,
    /// The chunks that the writer counted, in order.
    pub written: Seq<Seq<u8>>,
    /// The reader; the channel has a sender while it runs.
    pub reader: Side,
    /// The writer; it takes chunks while it runs.
    pub writer: Side,
}

/// What happens in a relay.
pub enum RelayEvent {
    /// The reader receives a chunk.
    Received(Seq<u8>),
    /// The client disconnects.
    Disconnected,
    /// Reading from the client fails, or the reader crashes.
    ReaderBroke { crashed: bool },
    /// The container takes the next chunk that waits.
    Forwarded,
    /// The writer waits for a chunk where none waits and none can come any more.
    Drained,
    /// Writing to the container fails, or the writer crashes.
    WriterBroke { crashed: bool },
}

/// A relay that has just begun.
pub open spec fn relay_start() -> RelayState {
    RelayState {
        handed: Seq::empty(),
        queue: Seq::empty(),
        written: Seq::empty(),
        reader: Side::Running,
        writer: Side::Running,
    }
}

/// How a side stands that broke.
pub open spec fn broken(crashed: bool) -> Side {
    if crashed {
        Side::Crashed
    } else {
        Side::Failed
    }
}

/// What an event does to a relay. Receiving is never held up by what waits in
/// the channel. Where the writer has ended, the chunk is lost and the reader ends
/// in order. The writer ends in order only on an empty channel without a sender.
pub open spec fn relay_next(state: RelayState, event: RelayEvent) -> RelayState {
    match event {
        RelayEvent::Received(chunk) => if !(state.reader is Running) {
            state
        } else if state.writer is Running {
            RelayState {
                handed: state.handed.push(chunk),
                queue: state.queue.push(chunk),
                ..state
            }
        } else {
            RelayState { handed: state.handed.push(chunk), reader: Side::Finished, ..state }
        },
        RelayEvent::Disconnected => if state.reader is Running {
            RelayState { reader: Side::Finished, ..state }
        } else {
            state
        },
        RelayEvent::ReaderBroke { crashed } => if state.reader is Running {
            RelayState { reader: broken(crashed), ..state }
        } else {
            state
        },
        RelayEvent::Forwarded => if state.queue.len() == 0 {
            state
        } else {
            RelayState {
                queue: state.queue.drop_first(),
                written: state.written.push(state.queue.first()),
                ..state
            }
        },
        RelayEvent::Drained => if state.writer is Running && state.queue.len() == 0 && !(
        state.reader is Running) {
            RelayState { writer: Side::Finished, ..state }
        } else {
            state
        },
        RelayEvent::WriterBroke { crashed } => if state.writer is Running {
            RelayState { queue: Seq::empty(), writer: broken(crashed), ..state }
        } else {
            state
        },
    }
}

/// Where a series of events leads.
pub open spec fn relay_run(events: Seq<RelayEvent>) -> RelayState
    decreases events.len(),
{
    if events.len() == 0 {
        relay_start()
    } else {
        relay_next(relay_run(events.drop_last()), events.last())
    }
}

/// Whether an event is one of the connection, not of the container.
pub open spec fn on_connection(event: RelayEvent) -> bool {
    event is Received || event is Disconnected || event is ReaderBroke
}

/// The events of the connection in a series of events, in order.
pub open spec fn connection_events(events: Seq<RelayEvent>) -> Seq<RelayEvent>
    decreases events.len(),
{
    if events.len() == 0 {
        Seq::empty()
    } else {
        let earlier = connection_events(events.drop_last());
        if on_connection(events.last()) {
            earlier.push(events.last())
        } else {
            earlier
        }
    }
}

/// The chunks that are received in a series of events, in order.
pub open spec fn received_chunks(events: Seq<RelayEvent>) -> Seq<Seq<u8>>
    decreases events.len(),
{
    if events.len() == 0 {
        Seq::empty()
    } else {
        let earlier = received_chunks(events.drop_last());
        match events.last() {
            RelayEvent::Received(chunk) => earlier.push(chunk),
            _ => earlier,
        }
    }
}

/// Whether the writer does not break in a series of events.
pub open spec fn writer_holds(events: Seq<RelayEvent>) -> bool {
    forall|i: int| 0 <= i < events.len() ==> !((#[trigger] events[i]) is WriterBroke)
}

/// Whether the connection stays up in a series of events.
pub open spec fn connection_holds(events: Seq<RelayEvent>) -> bool {
    forall|i: int|
        0 <= i < events.len() ==> !((#[trigger] events[i]) is Disconnected)
            && !(events[i] is ReaderBroke)
}

/// What is received goes to the end of the channel as it is, whatever waits there,
/// and what waits longest is written next. Nothing else moves a chunk; only a
/// writer that breaks loses what waits.
pub proof fn every_step_of_a_relay(state: RelayState, chunk: Seq<u8>, crashed: bool)
    ensures
        state.reader is Running && state.writer is Running ==> relay_next(
            state,
            RelayEvent::Received(chunk),
        ) == (RelayState {
            handed: state.handed + seq![chunk],
            queue: state.queue + seq![chunk],
            written: state.written,
            reader: state.reader,
            writer: state.writer,
        }),
        state.queue.len() > 0 ==> {
            let next = relay_next(state, RelayEvent::Forwarded);
            &&& seq![state.queue[0]] + next.queue == state.queue
            &&& next.written == state.written + seq![state.queue[0]]
            &&& next.handed == state.handed && next.reader == state.reader && next.writer
                == state.writer
        },
        ({
            let ended = relay_next(state, RelayEvent::Disconnected);
            let failed = relay_next(state, RelayEvent::ReaderBroke { crashed });
            let drained = relay_next(state, RelayEvent::Drained);
            let lost = relay_next(state, RelayEvent::WriterBroke { crashed });
            &&& ended.handed == state.handed && ended.queue == state.queue && ended.written
                == state.written && ended.writer == state.writer
            &&& failed.handed == state.handed && failed.queue == state.queue && failed.written
                == state.written && failed.writer == state.writer
            &&& drained.handed == state.handed && drained.queue == state.queue && drained.written
                == state.written && drained.reader == state.reader
            &&& lost.handed == state.handed && lost.written == state.written && lost.reader
                == state.reader
            &&& state.reader is Running ==> ended.reader is Finished
            &&& state.writer is Running ==> (drained.writer is Finished <==> state.queue.len() == 0
                && !(state.reader is Running))
            &&& state.writer is Running ==> lost.queue.len() == 0 && (lost.writer is Crashed
                <==> crashed) && (lost.writer is Failed <==> !crashed)
        }),
{
    if state.queue.len() > 0 {
        assert(seq![state.queue[0]] + state.queue.drop_first() =~= state.queue);
        assert(state.written.push(state.queue[0]) =~= state.written + seq![state.queue[0]]);
    }
    assert(state.handed.push(chunk) =~= state.handed + seq![chunk]);
    assert(state.queue.push(chunk) =~= state.queue + seq![chunk]);
}

/// The reader takes in every chunk as it comes, however the container's takings
/// are strewn among them: what it has handed on is what was received, and it
/// reads on.
pub proof fn reader_never_waits(events: Seq<RelayEvent>)
    requires
        writer_holds(events),
        connection_holds(events),
    ensures
        relay_run(events).handed == received_chunks(events),
        relay_run(events).reader is Running,
        relay_run(events).writer is Running,
    decreases events.len(),
{
    if events.len() > 0 {
        let earlier = events.drop_last();
        assert forall|i: int| 0 <= i < earlier.len() implies !((#[trigger] earlier[i])
            is WriterBroke) && !(earlier[i] is Disconnected) && !(earlier[i] is ReaderBroke) by {
            assert(earlier[i] == events[i]);
        }
        assert(events.last() == events[events.len() - 1]);
        reader_never_waits(earlier);
    }
}

/// Timing isolation: two relays with the same events of the connection look the
/// same on the side of the connection, at whatever pace the container takes the
/// chunks.
pub proof fn container_pace_does_not_show(fast: Seq<RelayEvent>, slow: Seq<RelayEvent>)
    requires
        writer_holds(fast),
        writer_holds(slow),
        connection_events(fast) == connection_events(slow),
    ensures
        relay_run(fast).handed == relay_run(slow).handed,
        relay_run(fast).reader == relay_run(slow).reader,
{
    lemma_connection_side(fast);
    lemma_connection_side(slow);
}

/// The side of the connection stands as if the container took nothing.
proof fn lemma_connection_side(events: Seq<RelayEvent>)
    requires
        writer_holds(events),
    ensures
        ({
            let alone = relay_run(connection_events(events));
            &&& relay_run(events).handed == alone.handed
            &&& relay_run(events).reader == alone.reader
            &&& alone.writer is Running
            &&& relay_run(events).reader is Running ==> relay_run(events).writer is Running
        }),
    decreases events.len(),
{
    if events.len() > 0 {
        let earlier = events.drop_last();
        assert forall|i: int| 0 <= i < earlier.len() implies !((#[trigger] earlier[i])
            is WriterBroke) by {
            assert(earlier[i] == events[i]);
        }
        assert(events.last() == events[events.len() - 1]);
        lemma_connection_side(earlier);
        if on_connection(events.last()) {
            assert(connection_events(events).drop_last() == connection_events(earlier));
        }
    }
}

/// Chunks reach the container in the order in which they were received, and
/// none is lost or repeated unless the writer breaks.
pub proof fn chunks_keep_their_order(events: Seq<RelayEvent>)
    ensures
        relay_run(events).writer is Running || relay_run(events).writer is Finished ==> relay_run(
            events,
        ).handed == relay_run(events).written + relay_run(events).queue,
        relay_run(events).written.is_prefix_of(relay_run(events).handed),
    decreases events.len(),
{
    let state = relay_run(events);
    if events.len() > 0 {
        chunks_keep_their_order(events.drop_last());
        lemma_ended_writer(events.drop_last());
        let before = relay_run(events.drop_last());
        match events.last() {
            RelayEvent::Received(chunk) => {
                if before.reader is Running && before.writer is Running {
                    assert(state.handed =~= state.written + state.queue);
                }
                assert(state.written.is_prefix_of(state.handed)) by {
                    assert(before.written =~= before.handed.take(before.written.len() as int));
                    assert(state.written =~= state.handed.take(state.written.len() as int));
                }
            },
            RelayEvent::Forwarded => {
                if before.queue.len() > 0 {
                    assert(state.handed =~= state.written + state.queue);
                    assert(state.written =~= state.handed.take(state.written.len() as int));
                }
            },
            _ => {},
        }
    }
}

/// Nothing waits where the writer has ended, and where it ended in order the
/// reader has ended too.
proof fn lemma_ended_writer(events: Seq<RelayEvent>)
    ensures
        !(relay_run(events).writer is Running) ==> relay_run(events).queue.len() == 0,
        relay_run(events).writer is Finished ==> !(relay_run(events).reader is Running),
    decreases events.len(),
{
    if events.len() > 0 {
        lemma_ended_writer(events.drop_last());
    }
}

/// Chunks stay within the buffer into which they were read: where that holds of
/// what is received, and no chunk is empty, it holds of all that is handed to
/// the channel, waits there or reaches the container.
pub proof fn chunks_stay_bounded(events: Seq<RelayEvent>)
    requires
        none_empty(received_chunks(events)),
        fit_buffer(received_chunks(events)),
    ensures
        none_empty(relay_run(events).handed) && fit_buffer(relay_run(events).handed),
        none_empty(relay_run(events).queue) && fit_buffer(relay_run(events).queue),
        none_empty(relay_run(events).written) && fit_buffer(relay_run(events).written),
    decreases events.len(),
{
    if events.len() > 0 {
        let earlier = events.drop_last();
        let chunks = received_chunks(events);
        assert forall|i: int| 0 <= i < received_chunks(earlier).len() implies 0 < (
        #[trigger] received_chunks(earlier)[i]).len() <= READ_BUFFER_SIZE by {
            assert(received_chunks(earlier)[i] == chunks[i]);
        }
        if events.last() is Received {
            assert(chunks.last() == chunks[chunks.len() - 1]);
        }
        chunks_stay_bounded(earlier);
    }
}

/// The bytes of the chunks that were written are the first of those that were
/// received.
pub proof fn container_gets_first_bytes(events: Seq<RelayEvent>)
    ensures
        relay_run(events).written.flatten().is_prefix_of(relay_run(events).handed.flatten()),
{
    chunks_keep_their_order(events);
    let handed = relay_run(events).handed;
    let written = relay_run(events).written;
    let rest = handed.skip(written.len() as int);
    assert(written =~= handed.take(written.len() as int));
    assert(handed =~= written + rest);
    lemma_flatten_concat(written, rest);
    assert(written.flatten() =~= (written.flatten() + rest.flatten()).take(
        written.flatten().len() as int,
    ));
}

/// The bytes that the container has are the first of those that were received
/// also where writing a chunk breaks off: then they are those of the chunks before
/// it and a first part of it.
pub proof fn broken_write_leaves_first_bytes(events: Seq<RelayEvent>, part: Seq<u8>)
    requires
        relay_run(events).writer is Running,
        relay_run(events).queue.len() > 0,
        part.is_prefix_of(relay_run(events).queue.first()),
    ensures
        (relay_run(events).written.flatten() + part).is_prefix_of(
            relay_run(events).handed.flatten(),
        ),
{
    chunks_keep_their_order(events);
    let state = relay_run(events);
    let chunk = state.queue.first();
    let rest = state.queue.drop_first();
    let done = state.written.flatten();
    assert(state.queue =~= seq![chunk] + rest);
    lemma_flatten_concat(state.written, state.queue);
    lemma_flatten_concat(seq![chunk], rest);
    assert(seq![chunk].flatten() =~= chunk) by {
        reveal_with_fuel(Seq::flatten, 2);
        assert(seq![chunk].drop_first() =~= Seq::<Seq<u8>>::empty());
    }
    assert(state.handed.flatten() == done + (chunk + rest.flatten()));
    assert(chunk.take(part.len() as int) =~= part);
    assert((done + (chunk + rest.flatten())).take((done + part).len() as int) =~= done + part);
}

/// The count of bytes finds every loss: where no empty chunk was handed on,
/// counts taken at any point of a relay are reported as a mismatch exactly if
/// some chunk has not reached the container.
pub proof fn mismatch_means_loss(events: Seq<RelayEvent>, received: u64, forwarded: u64)
    requires
        none_empty(relay_run(events).handed),
        received == byte_count(relay_run(events).handed),
        forwarded == byte_count(relay_run(events).written),
    ensures
        forwarded <= received,
        relay_outcome(TaskOutcome::Finished(received), TaskOutcome::Finished(forwarded)) matches Ok(
            report,
        ) && (report.mismatch <==> relay_run(events).written != relay_run(events).handed),
{
    chunks_keep_their_order(events);
    lemma_prefix_count(relay_run(events).handed, relay_run(events).written);
}

/// Unless the writer has broken, the counts agree exactly if the channel has run
/// empty.
pub proof fn drained_relay_agrees(events: Seq<RelayEvent>)
    requires
        none_empty(relay_run(events).handed),
        relay_run(events).writer is Running || relay_run(events).writer is Finished,
    ensures
        byte_count(relay_run(events).written) == byte_count(relay_run(events).handed)
            <==> relay_run(events).queue.len() == 0,
{
    chunks_keep_their_order(events);
    let state = relay_run(events);
    lemma_prefix_count(state.handed, state.written);
    assert(state.queue.len() == 0 ==> state.written + state.queue =~= state.written);
}

/// A writer that ends in order has delivered everything that the reader counted,
/// and the reader counts no more.
pub proof fn finished_writer_delivered_all(events: Seq<RelayEvent>)
    requires
        relay_run(events).writer is Finished,
    ensures
        relay_run(events).written == relay_run(events).handed,
        !(relay_run(events).reader is Running),
{
    chunks_keep_their_order(events);
    lemma_ended_writer(events);
    let state = relay_run(events);
    assert(state.written + state.queue =~= state.written);
}

/// The outcome of a side that has ended, having counted `bytes`.
pub open spec fn outcome_of(side: Side, bytes: u64) -> TaskOutcome {
    match side {
        Side::Finished => TaskOutcome::Finished(bytes),
        Side::Crashed => TaskOutcome::Crashed,
        _ => TaskOutcome::Failed,
    }
}

/// A relay that ends in order has delivered everything: where both sides have
/// ended, success is reported exactly if neither broke, and then all that the
/// reader counted has reached the container and the counts agree. A broken side
/// is reported, the reader before the writer.
pub proof fn success_means_delivered(events: Seq<RelayEvent>, received: u64, forwarded: u64)
    requires
        !(relay_run(events).reader is Running),
        !(relay_run(events).writer is Running),
        received == byte_count(relay_run(events).handed),
        forwarded == byte_count(relay_run(events).written),
    ensures
        ({
            let state = relay_run(events);
            let reader = outcome_of(state.reader, received);
            let writer = outcome_of(state.writer, forwarded);
            match relay_outcome(reader, writer) {
                Ok(report) => {
                    &&& state.reader is Finished && state.writer is Finished
                    &&& state.written == state.handed
                    &&& !report.mismatch
                    &&& report.received_mb == report.forwarded_mb
                },
                Err(RelayError::ReaderFailed) => state.reader is Failed,
                Err(RelayError::ReaderCrashed) => state.reader is Crashed,
                Err(RelayError::WriterFailed) => state.reader is Finished && state.writer is Failed,
                Err(RelayError::WriterCrashed) => state.reader is Finished
                    && state.writer is Crashed,
            }
        }),
{
    if relay_run(events).writer is Finished {
        finished_writer_delivered_all(events);
    }
}

proof fn lemma_prefix_count(handed: Seq<Seq<u8>>, written: Seq<Seq<u8>>)
    requires
        none_empty(handed),
        written.is_prefix_of(handed),
    ensures
        byte_count(written) <= byte_count(handed),
        byte_count(written) == byte_count(handed) ==> written == handed,
{
    let rest = handed.skip(written.len() as int);
    assert(written =~= handed.take(written.len() as int));
    assert(handed =~= written + rest);
    lemma_flatten_concat(written, rest);
    if rest.len() > 0 {
        assert(rest.first() == handed[written.len() as int]);
        assert(rest.flatten().len() >= rest.first().len());
    } else {
        assert(written =~= handed);
    }
}

} // verus!
