//! Helpers that cut the chunks of a byte stream, and the decisions that the
//! stream-driving loops take for each chunk.

use std::ops::ControlFlow;
use vstd::prelude::*;
use vstd::slice::slice_subrange;

verus! {

/// The first `len` bytes of `chunk`, or the whole chunk when it is shorter
/// than `len`: `Break` holds the prefix, `Continue` the whole chunk.
pub fn take_prefix(chunk: &[u8], len: usize) -> (r: ControlFlow<&[u8], &[u8]>)
    ensures
        len > chunk@.len() ==> r == ControlFlow::<&[u8], &[u8]>::Continue(chunk),
        len <= chunk@.len() ==> (r matches ControlFlow::Break(p) && p@ == chunk@.take(len as int)),
{
    if len > chunk.len() {
        return ControlFlow::Continue(chunk);
    }
    ControlFlow::Break(slice_subrange(chunk, 0, len))
}

/// What is left of `chunk` after its first `len` bytes: `Break` holds the
/// rest, `Continue` says the chunk is shorter than `len`.
pub fn skip_prefix(chunk: &[u8], len: usize) -> (r: ControlFlow<&[u8]>)
    ensures
        len > chunk@.len() ==> r == ControlFlow::<&[u8], ()>::Continue(()),
        len <= chunk@.len() ==> (r matches ControlFlow::Break(rest) && rest@ == chunk@.skip(
            len as int,
        )),
{
    if len > chunk.len() {
        return ControlFlow::Continue(());
    }
    ControlFlow::Break(slice_subrange(chunk, len, chunk.len()))
}

/// `take_prefix` when a length is given; the whole chunk otherwise.
pub fn optional_take_prefix(chunk: &[u8], len: Option<usize>) -> (r: ControlFlow<&[u8], &[u8]>)
    ensures
        len is None ==> r == ControlFlow::<&[u8], &[u8]>::Continue(chunk),
        len matches Some(n) ==> {
            &&& n > chunk@.len() ==> r == ControlFlow::<&[u8], &[u8]>::Continue(chunk)
            &&& n <= chunk@.len() ==> (r matches ControlFlow::Break(p) && p@ == chunk@.take(
                n as int,
            ))
        },
{
    match len {
        Some(len) => take_prefix(chunk, len),
        None => ControlFlow::Continue(chunk),
    }
}

/// `skip_prefix` when a length is given; `Continue` otherwise.
pub fn optional_skip_prefix(chunk: &[u8], len: Option<usize>) -> (r: ControlFlow<&[u8]>)
    ensures
        len is None ==> r == ControlFlow::<&[u8], ()>::Continue(()),
        len matches Some(n) ==> {
            &&& n > chunk@.len() ==> r == ControlFlow::<&[u8], ()>::Continue(())
            &&& n <= chunk@.len() ==> (r matches ControlFlow::Break(rest) && rest@ == chunk@.skip(
                n as int,
            ))
        },
{
    match len {
        Some(len) => skip_prefix(chunk, len),
        None => ControlFlow::Continue(()),
    }
}

/// What the writing loop does with one chunk of a response body: the bytes
/// to write, the amount to add to the shared progress counter (a `u32`, so
/// the length is truncated to its low 32 bits), and whether to go on.
pub struct ChunkWrite<'a> {
    pub data: &'a [u8],
    pub progress: u32,
    pub flow: ControlFlow<()>,
}

/// The step that the writing loop takes for one chunk when the range ends
/// at `end` and `process` bytes of it are already written (either may be
/// unknown): the bytes to write, the amount added to the `u32` progress
/// counter, and whether the loop stops. A chunk that runs past the end is
/// cut there and stops the loop; any other chunk is written whole.
pub open spec fn planned_write(chunk: Seq<u8>, end: Option<int>, process: Option<int>) -> (
    Seq<u8>,
    u32,
    bool,
) {
    match (end, process) {
        (Some(e), Some(p)) => if p + chunk.len() > e {
            (chunk.take(e - p), (e - p) as u32, true)
        } else {
            (chunk, chunk.len() as u32, false)
        },
        _ => (chunk, chunk.len() as u32, false),
    }
}

/// An optional `u64` as an optional integer.
pub open spec fn opt_int(v: Option<u64>) -> Option<int> {
    match v {
        Some(x) => Some(x as int),
        None => None,
    }
}

/// Decides how a chunk is written when the range ends at `end` and
/// `process` bytes of it are already written: as `planned_write` says.
pub fn plan_chunk_write<'a>(chunk: &'a [u8], end: Option<u64>, process: Option<u64>) -> (w:
    ChunkWrite<'a>)
    requires
        (end, process) matches (Some(e), Some(p)) ==> p + chunk@.len() <= u64::MAX && (p
            + chunk@.len() > e ==> p <= e),
    ensures
        (w.data@, w.progress, w.flow == ControlFlow::<(), ()>::Break(())) == planned_write(
            chunk@,
            opt_int(end),
            opt_int(process),
        ),
        w.flow == ControlFlow::<(), ()>::Break(()) || w.flow == ControlFlow::<(), ()>::Continue(()),
{
    if let (Some(end), Some(process)) = (end, process) {
        if process + chunk.len() as u64 > end {
            let len = (end - process) as usize;
            let data = slice_subrange(chunk, 0, len);
            return ChunkWrite { data, progress: (end - process) as u32, flow: ControlFlow::Break(()) };
        }
    }
    ChunkWrite { data: chunk, progress: chunk.len() as u32, flow: ControlFlow::Continue(()) }
}

/// What the loop that seeks to a write position does with one chunk: skip
/// it, or open the writer at the target and write what of the chunk lies at
/// or after it. `progress` is the amount added to the progress counter.
#[derive(PartialEq, Eq, Debug)]
pub enum JumpStep<'a> {
    Skip { progress: u32 },
    Write { progress: u32, data: &'a [u8] },
}

/// The step that the seeking loop takes for a chunk read at stream position
/// `process` while seeking `jump_to`: the bytes to write, if the chunk is
/// written, and the amount added to the `u32` progress counter. Once the
/// counted position passes `jump_to`, the part of the chunk from `jump_to`
/// on is written; before that the chunk is skipped.
pub open spec fn planned_jump(chunk: Seq<u8>, process: int, jump_to: int) -> (Option<Seq<u8>>, u32) {
    if process + (chunk.len() as u32) > jump_to {
        (Some(chunk.skip(jump_to - process)), chunk.len() as u32)
    } else {
        (None, chunk.len() as u32)
    }
}

/// The step of a `JumpStep`: the bytes written, if any, and the progress.
pub open spec fn jump_step_view(s: JumpStep) -> (Option<Seq<u8>>, u32) {
    match s {
        JumpStep::Skip { progress } => (None, progress),
        JumpStep::Write { progress, data } => (Some(data@), progress),
    }
}

/// Decides the step for a chunk read at stream position `process` while
/// seeking `jump_to`: as `planned_jump` says.
pub fn plan_jump_step<'a>(chunk: &'a [u8], process: u64, jump_to: u64) -> (s: JumpStep<'a>)
    requires
        process <= jump_to,
        process + chunk@.len() <= u64::MAX,
    ensures
        jump_step_view(s) == planned_jump(chunk@, process as int, jump_to as int),
{
    let progress = chunk.len() as u32;
    let counted = process + progress as u64;
    if counted > jump_to {
        let offset = (jump_to - process) as usize;
        JumpStep::Write { progress, data: slice_subrange(chunk, offset, chunk.len()) }
    } else {
        JumpStep::Skip { progress }
    }
}

/// Taking and skipping the same prefix length cut a chunk in two: the
/// prefix followed by the rest is the chunk.
pub proof fn lemma_prefix_and_rest(chunk: Seq<u8>, len: nat)
    requires
        len <= chunk.len(),
    ensures
        chunk.take(len as int) + chunk.skip(len as int) == chunk,
        chunk.take(len as int).len() == len,
{
    assert(chunk.take(len as int) + chunk.skip(len as int) =~= chunk);
}

/// The writing loop never writes past the end of its range: from a position
/// at or before the end, the bytes planned for a chunk bring the position to
/// at most the end, exactly to it when the loop stops there.
pub proof fn lemma_chunk_write_stays_in_range(chunk: Seq<u8>, end: int, process: int)
    requires
        process <= end,
    ensures
        process + planned_write(chunk, Some(end), Some(process)).0.len() <= end,
        planned_write(chunk, Some(end), Some(process)).2 ==> process + planned_write(
            chunk,
            Some(end),
            Some(process),
        ).0.len() == end,
{
}

/// What one step of the writing loop does, whatever is known of the end and
/// the position: it writes a prefix of the chunk and adds exactly the length
/// of what it writes to the progress counter (truncated to `u32`); it cuts
/// and stops only when both are known and the chunk runs past the end, and
/// then the written bytes reach the end exactly; otherwise it writes the
/// whole chunk and goes on.
pub proof fn lemma_planned_write_counts_written(chunk: Seq<u8>, end: Option<int>, process: Option<int>)
    requires
        (end, process) matches (Some(e), Some(p)) ==> p <= e,
    ensures
        ({
            let (data, progress, stop) = planned_write(chunk, end, process);
            &&& data.len() <= chunk.len()
            &&& data == chunk.take(data.len() as int)
            &&& progress == data.len() as u32
            &&& stop <==> (end is Some && process is Some && process->0 + chunk.len() > end->0)
            &&& !stop ==> data == chunk && progress == chunk.len() as u32
            &&& stop ==> process->0 + data.len() == end->0
        }),
{
    let (data, progress, stop) = planned_write(chunk, end, process);
    if !stop {
        assert(chunk.take(chunk.len() as int) =~= chunk);
    }
}

/// Every seeking step counts the whole chunk it reads, whether it skips or
/// writes it, so after the step the counter shows the stream position at
/// the end of the chunk; and a step writes exactly when that position passes
/// `jump_to`, the bytes of the chunk from `jump_to` on.
pub proof fn lemma_planned_jump_counts_chunk(chunk: Seq<u8>, process: int, jump_to: int)
    requires
        process <= jump_to,
        chunk.len() <= u32::MAX,
    ensures
        ({
            let (written, progress) = planned_jump(chunk, process, jump_to);
            &&& progress == chunk.len()
            &&& written is Some <==> process + chunk.len() > jump_to
            &&& written matches Some(data) ==> data.len() == process + chunk.len() - jump_to
                && data == chunk.subrange(jump_to - process, chunk.len() as int)
        }),
{
    assert(chunk.len() as u32 == chunk.len());
    let (written, progress) = planned_jump(chunk, process, jump_to);
    if process + chunk.len() > jump_to {
        assert(chunk.skip(jump_to - process) =~= chunk.subrange(jump_to - process, chunk.len() as int));
    }
}

/// Whether every chunk of a stream is counted whole by the `u32` progress
/// counter (shorter than 4 GiB).
pub open spec fn chunks_counted_whole(chunks: Seq<Seq<u8>>) -> bool {
    forall|i: int| 0 <= i < chunks.len() ==> #[trigger] chunks[i].len() <= u32::MAX
}

/// The bytes that the writing loop writes for a stream of chunks, from
/// position `process` in a range that ends at `end`: the step that
/// `planned_write` gives for each chunk, the counter advanced by each
/// step's progress, until a step stops the loop.
pub open spec fn stream_written(chunks: Seq<Seq<u8>>, end: int, process: int) -> Seq<u8>
    decreases chunks.len(),
{
    if chunks.len() == 0 {
        Seq::empty()
    } else {
        let (data, progress, stop) = planned_write(chunks[0], Some(end), Some(process));
        if stop {
            data
        } else {
            data + stream_written(chunks.drop_first(), end, process + progress)
        }
    }
}

/// The position that the progress counter shows once the writing loop is
/// over.
pub open spec fn stream_position(chunks: Seq<Seq<u8>>, end: int, process: int) -> int
    decreases chunks.len(),
{
    if chunks.len() == 0 {
        process
    } else {
        let (data, progress, stop) = planned_write(chunks[0], Some(end), Some(process));
        if stop {
            process + progress
        } else {
            stream_position(chunks.drop_first(), end, process + progress)
        }
    }
}

/// The whole stream writes the concatenation of its chunks cut at the end of
/// the range, and the counter ends at the smaller of the stream's end and
/// the range's end (for chunks that the counter counts whole).
pub proof fn lemma_stream_written(chunks: Seq<Seq<u8>>, end: int, process: int)
    requires
        process <= end,
        chunks_counted_whole(chunks),
    ensures
        stream_written(chunks, end, process) == chunks.flatten().take(
            if process + chunks.flatten().len() <= end { chunks.flatten().len() as int } else { end - process },
        ),
        stream_position(chunks, end, process) == if process + chunks.flatten().len() <= end {
            process + chunks.flatten().len()
        } else {
            end
        },
    decreases chunks.len(),
{
    if chunks.len() > 0 {
        let c = chunks[0];
        let rest = chunks.drop_first();
        assert(c.len() <= u32::MAX);
        assert(chunks.flatten() == c + rest.flatten());
        if process + c.len() > end {
            assert(((end - process) as u32) == end - process);
            assert(chunks.flatten().take(end - process) =~= c.take(end - process));
        } else {
            assert(c.len() as u32 == c.len());
            assert forall|i: int| 0 <= i < rest.len() implies #[trigger] rest[i].len() <= u32::MAX by {
                assert(rest[i] == chunks[i + 1]);
            }
            lemma_stream_written(rest, end, process + c.len());
            let n = if process + chunks.flatten().len() <= end {
                chunks.flatten().len() as int
            } else {
                end - process
            };
            assert(stream_written(chunks, end, process) =~= chunks.flatten().take(n));
        }
    }
}

/// Seeking `jump_to` through a stream from position `process`: `None` when
/// the stream ends first; otherwise the bytes written at the first chunk
/// whose `planned_jump` step writes, and the chunks after that one. Each
/// skipped chunk advances the counter by its step's progress.
pub open spec fn stream_sought(chunks: Seq<Seq<u8>>, process: int, jump_to: int) -> Option<
    (Seq<u8>, Seq<Seq<u8>>),
>
    decreases chunks.len(),
{
    if chunks.len() == 0 {
        None
    } else {
        let (written, progress) = planned_jump(chunks[0], process, jump_to);
        match written {
            Some(data) => Some((data, chunks.drop_first())),
            None => stream_sought(chunks.drop_first(), process + progress, jump_to),
        }
    }
}

/// Seeking then writing the rest of the stream yields exactly the stream's
/// bytes from `jump_to` on, and the seek finds its target exactly when the
/// stream reaches past it (for chunks that the counter counts whole).
pub proof fn lemma_seek_then_write(chunks: Seq<Seq<u8>>, process: int, jump_to: int)
    requires
        process <= jump_to,
        chunks_counted_whole(chunks),
    ensures
        stream_sought(chunks, process, jump_to) is None <==> process + chunks.flatten().len()
            <= jump_to,
        stream_sought(chunks, process, jump_to) matches Some((data, rest)) ==> data
            + rest.flatten() == chunks.flatten().skip(jump_to - process),
    decreases chunks.len(),
{
    if chunks.len() > 0 {
        let c = chunks[0];
        let rest = chunks.drop_first();
        assert(c.len() <= u32::MAX);
        assert(c.len() as u32 == c.len());
        assert(chunks.flatten() == c + rest.flatten());
        if process + c.len() > jump_to {
            assert(c.skip(jump_to - process) + rest.flatten() =~= chunks.flatten().skip(
                jump_to - process,
            ));
        } else {
            assert forall|i: int| 0 <= i < rest.len() implies #[trigger] rest[i].len() <= u32::MAX by {
                assert(rest[i] == chunks[i + 1]);
            }
            lemma_seek_then_write(rest, process + c.len(), jump_to);
            if process + chunks.flatten().len() > jump_to {
                assert(rest.flatten().skip(jump_to - (process + c.len())) =~= chunks.flatten().skip(
                    jump_to - process,
                ));
            }
        }
    }
}

} // verus!
