//! Writing the body of a reply to a file, chunk by chunk. A file may take only a part of
//! what it is given; the rest is then given again, until the chunk is written.

use vstd::prelude::*;

verus! {

/// How many bytes are read at once at most.
pub const BUFFER_SIZE: usize = 8192;

/// What to do next.
#[derive(Debug, Clone, Copy, PartialEq, Eq, Structural)]
pub enum TransferStep {
    /// Nothing: the body has ended.
    Finished,
    /// Write the bytes of the buffer from `start` up to `end`.
    Write { start: usize, end: usize },
    /// Show this position in the progress bar, and read the next chunk.
    ReadOn(u64),
    /// Give up: the file takes no more bytes.
    Stuck,
}

/// A body that is being written.
pub struct Transfer {
    downloaded: usize,
    start: usize,
    end: usize,
}

/// The state of a [`Transfer`]: how many bytes of whole chunks were written, and which
/// part of the chunk in the buffer is still to be written.
pub struct TransferView {
    pub downloaded: nat,
    pub start: nat,
    pub end: nat,
}

impl View for Transfer {
    type V = TransferView;

    closed spec fn view(&self) -> TransferView {
        TransferView {
            downloaded: self.downloaded as nat,
            start: self.start as nat,
            end: self.end as nat,
        }
    }
}

/// A body of which nothing was read yet.
pub open spec fn untransferred() -> TransferView {
    TransferView { downloaded: 0, start: 0, end: 0 }
}

/// Whether some of the chunk in the buffer is still to be written.
pub open spec fn has_rest(transfer: TransferView) -> bool {
    transfer.start < transfer.end
}

/// The state after so many bytes were read: all of them are to be written.
pub open spec fn after_read(transfer: TransferView, read: nat) -> TransferView {
    TransferView { start: 0, end: read, ..transfer }
}

/// The state after the file took so many bytes. What it did not take is still to be
/// written; a chunk that is written as a whole is counted.
pub open spec fn after_write(transfer: TransferView, written: nat) -> TransferView {
    if transfer.start + written < transfer.end {
        TransferView { start: transfer.start + written, ..transfer }
    } else {
        TransferView { downloaded: transfer.downloaded + transfer.end, start: 0, end: 0 }
    }
}

/// What to do after so many bytes were read. A body that has ended gives none.
pub open spec fn step_after_read(read: nat) -> TransferStep {
    if read == 0 {
        TransferStep::Finished
    } else {
        TransferStep::Write { start: 0, end: read as usize }
    }
}

/// What to do after the file took so many bytes of the rest.
pub open spec fn step_after_write(transfer: TransferView, written: nat) -> TransferStep {
    if written == 0 {
        TransferStep::Stuck
    } else if transfer.start + written < transfer.end {
        TransferStep::Write {
            start: (transfer.start + written) as usize,
            end: transfer.end as usize,
        }
    } else {
        TransferStep::ReadOn((transfer.downloaded + transfer.end) as u64)
    }
}

impl Transfer {
    /// The bytes can be counted.
    pub open spec fn wf(&self) -> bool {
        &&& self@.start <= self@.end
        &&& self@.downloaded + self@.end <= usize::MAX
    }

    /// A body of which nothing was read yet.
    pub fn begin() -> (transfer: Transfer)
        ensures
            transfer.wf(),
            transfer@ == untransferred(),
    {
        Transfer { downloaded: 0, start: 0, end: 0 }
    }

    /// How many bytes of whole chunks were written.
    pub fn downloaded(&self) -> (bytes: usize)
        ensures
            bytes == self@.downloaded,
    {
        self.downloaded
    }

    /// Takes in how many bytes were read into the buffer.
    pub fn on_read(&mut self, read: usize) -> (step: TransferStep)
        requires
            old(self).wf(),
            !has_rest(old(self)@),
            old(self)@.downloaded + read <= usize::MAX,
        ensures
            final(self).wf(),
            final(self)@ == after_read(old(self)@, read as nat),
            step == step_after_read(read as nat),
    {
        self.start = 0;
        self.end = read;
        if read == 0 {
            TransferStep::Finished
        } else {
            TransferStep::Write { start: 0, end: read }
        }
    }

    /// Takes in how many bytes of the rest the file took.
    pub fn on_write(&mut self, written: usize) -> (step: TransferStep)
        requires
            old(self).wf(),
            has_rest(old(self)@),
            written <= old(self)@.end - old(self)@.start,
        ensures
            final(self).wf(),
            final(self)@ == after_write(old(self)@, written as nat),
            step == step_after_write(old(self)@, written as nat),
    {
        if written == 0 {
            return TransferStep::Stuck;
        }
        if written < self.end - self.start {
            self.start += written;
            TransferStep::Write { start: self.start, end: self.end }
        } else {
            self.downloaded += self.end;
            self.start = 0;
            self.end = 0;
            TransferStep::ReadOn(self.downloaded as u64)
        }
    }
}

/// What happens while a body is written.
pub enum FileEvent {
    /// A chunk is read; an empty one is the end of the body.
    Read(Seq<u8>),
    /// The file takes so many bytes of the rest.
    Written(nat),
}

/// A body, its file, and the buffer between them.
pub struct FileRun {
    pub transfer: TransferView,
    pub buffer: Seq<u8>,
    pub body: Seq<u8>,
    pub file: Seq<u8>,
    pub ended: bool,
}

/// Nothing was read, and the file is empty.
pub open spec fn file_begun() -> FileRun {
    FileRun {
        transfer: untransferred(),
        buffer: Seq::empty(),
        body: Seq::empty(),
        file: Seq::empty(),
        ended: false,
    }
}

/// Whether something can happen: a chunk is read once the one before is written and until
/// the body has ended, and a file takes no more than it is given.
pub open spec fn can_happen(run: FileRun, event: FileEvent) -> bool {
    match event {
        FileEvent::Read(_) => !has_rest(run.transfer) && !run.ended,
        FileEvent::Written(written) => has_rest(run.transfer) && written <= run.transfer.end
            - run.transfer.start,
    }
}

/// What becomes of body and file. The file takes its bytes from the beginning of the rest.
pub open spec fn after_event(run: FileRun, event: FileEvent) -> FileRun {
    match event {
        FileEvent::Read(chunk) => FileRun {
            transfer: after_read(run.transfer, chunk.len()),
            buffer: chunk,
            body: run.body + chunk,
            file: run.file,
            ended: chunk.len() == 0,
        },
        FileEvent::Written(written) => FileRun {
            transfer: after_write(run.transfer, written),
            file: run.file + run.buffer.subrange(
                run.transfer.start as int,
                (run.transfer.start + written) as int,
            ),
            ..run
        },
    }
}

/// What becomes of body and file after some events.
pub open spec fn after_events(events: Seq<FileEvent>) -> FileRun
    decreases events.len(),
{
    if events.len() == 0 {
        file_begun()
    } else {
        after_event(after_events(events.drop_last()), events.last())
    }
}

/// Whether some events can happen one after the other.
pub open spec fn can_all_happen(events: Seq<FileEvent>) -> bool
    decreases events.len(),
{
    events.len() > 0 ==> can_all_happen(events.drop_last()) && can_happen(
        after_events(events.drop_last()),
        events.last(),
    )
}

/// The chunks that are read, in order.
pub open spec fn chunks_read(events: Seq<FileEvent>) -> Seq<Seq<u8>>
    decreases events.len(),
{
    if events.len() == 0 {
        Seq::empty()
    } else {
        let before = chunks_read(events.drop_last());
        match events.last() {
            FileEvent::Read(chunk) => before.push(chunk),
            FileEvent::Written(_) => before,
        }
    }
}

/// Whatever parts the file takes, no byte is lost, doubled or moved: the file and the rest
/// of the buffer are the chunks that were read, in order. Between two chunks, and when the
/// body has ended, the file holds exactly what was read, and its length is what was
/// counted.
pub proof fn lemma_file_holds_the_body(events: Seq<FileEvent>)
    requires
        can_all_happen(events),
    ensures
        ({
            let run = after_events(events);
            let transfer = run.transfer;
            &&& run.body == chunks_read(events).flatten()
            &&& transfer.start <= transfer.end
            &&& has_rest(transfer) ==> transfer.end == run.buffer.len() && run.file
                + run.buffer.subrange(transfer.start as int, transfer.end as int) == run.body
            &&& !has_rest(transfer) ==> run.file == run.body && run.file.len()
                == transfer.downloaded
            &&& run.ended ==> run.file == chunks_read(events).flatten()
            &&& run.file.len() == transfer.downloaded + transfer.start
        }),
    decreases events.len(),
{
    if events.len() == 0 {
        assert(chunks_read(events).flatten() == Seq::<u8>::empty());
    } else {
        let front = events.drop_last();
        let before = after_events(front);
        let run = after_events(events);
        lemma_file_holds_the_body(front);
        lemma_ended_has_no_rest(front);
        lemma_ended_has_no_rest(events);
        match events.last() {
            FileEvent::Read(chunk) => {
                chunks_read(front).lemma_flatten_push(chunk);
                assert(chunk.subrange(0, chunk.len() as int) == chunk);
                if chunk.len() == 0 {
                    assert(before.body + chunk == before.body);
                }
            },
            FileEvent::Written(written) => {
                let start = before.transfer.start as int;
                let end = before.transfer.end as int;
                assert(before.buffer.subrange(start, end) == before.buffer.subrange(
                    start,
                    start + written,
                ) + before.buffer.subrange(start + written, end));
                assert(run.file + before.buffer.subrange(start + written, end) == before.body);
                if start + written == end {
                    assert(run.file == before.body);
                }
            },
        }
    }
}

/// Once the body has ended, nothing is left to be written. Where nothing is left, the next
/// chunk starts at the beginning of the buffer.
proof fn lemma_ended_has_no_rest(events: Seq<FileEvent>)
    requires
        can_all_happen(events),
    ensures
        after_events(events).ended ==> !has_rest(after_events(events).transfer),
        !has_rest(after_events(events).transfer) ==> after_events(events).transfer.start == 0
            && after_events(events).transfer.end == 0,
    decreases events.len(),
{
    if events.len() > 0 {
        lemma_ended_has_no_rest(events.drop_last());
    }
}

/// The bytes of some chunks together.
pub open spec fn total_bytes(chunks: Seq<nat>) -> nat
    decreases chunks.len(),
{
    if chunks.len() == 0 {
        0
    } else {
        total_bytes(chunks.drop_last()) + chunks.last()
    }
}

/// The positions that the progress bar shows while the chunks of a body are written.
pub open spec fn positions(chunks: Seq<nat>) -> Seq<nat> {
    Seq::new(chunks.len(), |i: int| total_bytes(chunks.take(i + 1)))
}

/// The progress bar never goes back, and ends at the length of the body.
pub proof fn lemma_progress(chunks: Seq<nat>)
    ensures
        forall|i: int, j: int|
            0 <= i <= j < chunks.len() ==> positions(chunks)[i] <= positions(chunks)[j],
        chunks.len() > 0 ==> positions(chunks).last() == total_bytes(chunks),
{
    assert forall|i: int, j: int| 0 <= i <= j < chunks.len() implies positions(chunks)[i]
        <= positions(chunks)[j] by {
        lemma_total_grows(chunks, i, j);
    }
    assert(chunks.take(chunks.len() as int) == chunks);
}

proof fn lemma_total_grows(chunks: Seq<nat>, i: int, j: int)
    requires
        0 <= i <= j < chunks.len(),
    ensures
        total_bytes(chunks.take(i + 1)) <= total_bytes(chunks.take(j + 1)),
    decreases j - i,
{
    if i < j {
        lemma_total_grows(chunks, i, j - 1);
        assert(chunks.take(j + 1).drop_last() == chunks.take(j));
    }
}

/// At first nothing was read and nothing counted.
pub proof fn lemma_transfer_begins()
    ensures
        untransferred().downloaded == 0,
        untransferred().start == 0,
        untransferred().end == 0,
{
}

/// After a read everything that was read is to be written, from its beginning, and nothing
/// more is counted yet. Only an empty read ends the body. What is to be written lies in the
/// buffer.
pub proof fn lemma_everything_read_is_written(transfer: TransferView, read: nat)
    requires
        read <= usize::MAX,
    ensures
        after_read(transfer, read).downloaded == transfer.downloaded,
        after_read(transfer, read).start == 0,
        after_read(transfer, read).end == read,
        has_rest(after_read(transfer, read)) <==> read > 0,
        step_after_read(read) == TransferStep::Finished <==> read == 0,
        read > 0 ==> step_after_read(read) == (TransferStep::Write { start: 0, end: read as usize }),
        0 < read <= 8 * 1024 ==> step_after_read(read)->end <= BUFFER_SIZE,
        BUFFER_SIZE == 8 * 1024,
{
}

/// After a write the part that was not taken is to be written next, up to the same end. Once
/// the whole chunk was taken it is counted, the count is shown, and the next one is read. A
/// file that takes nothing is given up.
pub proof fn lemma_rest_is_written_next(transfer: TransferView, written: nat)
    requires
        transfer.start < transfer.end,
        written <= transfer.end - transfer.start,
        transfer.downloaded + transfer.end <= usize::MAX,
    ensures
        ({
            let next = after_write(transfer, written);
            let step = step_after_write(transfer, written);
            let whole = written == transfer.end - transfer.start;
            &&& !whole ==> next.start == transfer.start + written && next.end == transfer.end
                && next.downloaded == transfer.downloaded
            &&& whole ==> next.start == next.end && next.downloaded == transfer.downloaded
                + transfer.end
            &&& has_rest(next) <==> !whole
            &&& written == 0 <==> step == TransferStep::Stuck
            &&& written > 0 && !whole ==> step is Write && step->start == next.start && step->end
                == next.end
            &&& written > 0 && whole ==> step is ReadOn && step->0 == next.downloaded
        }),
{
}

/// A rest is what lies between where writing goes on and where the chunk ends.
pub proof fn lemma_rest_lies_before_the_end(transfer: TransferView)
    ensures
        has_rest(transfer) <==> transfer.start < transfer.end,
{
}

/// The bytes of one more chunk are added, and the progress bar then shows their sum.
pub proof fn lemma_chunks_are_added_up(chunks: Seq<nat>, chunk: nat)
    ensures
        total_bytes(Seq::empty()) == 0,
        total_bytes(chunks.push(chunk)) == total_bytes(chunks) + chunk,
        positions(chunks).len() == chunks.len(),
        positions(chunks.push(chunk)) == positions(chunks).push(total_bytes(chunks) + chunk),
{
    assert(chunks.push(chunk).drop_last() == chunks);
    assert forall|i: int| 0 <= i < chunks.len() implies positions(chunks.push(chunk))[i]
        == positions(chunks)[i] by {
        assert(chunks.push(chunk).take(i + 1) == chunks.take(i + 1));
    }
    assert(chunks.push(chunk).take((chunks.len() + 1) as int) == chunks.push(chunk));
}

} // verus!
