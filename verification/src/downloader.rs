//! The block model of the multi-task downloader: blocks that can be split
//! into equal parts, the lifecycle of the task that downloads a block
//! (carrying the handle by which that task can be aborted), and the check
//! that the file on the server did not change between requests.

use vstd::prelude::*;
use vstd::slice::slice_to_vec;

verus! {

/// The remaining range `process..end` of a download.
pub struct Block {
    process: u64,
    end: u64,
}

impl View for Block {
    type V = (u64, u64);

    closed spec fn view(&self) -> (u64, u64) {
        (self.process, self.end)
    }
}

/// The parameters of an even split of a block into parts.
pub struct BlockIter {
    remainnum: u8,
    process: u64,
    end: u64,
    chunk_size: u64,
}

/// The abstract value of a split: parts left, start, end, size of a part.
pub struct BlockIterView {
    pub remainnum: u8,
    pub process: u64,
    pub end: u64,
    pub chunk_size: u64,
}

impl View for BlockIter {
    type V = BlockIterView;

    closed spec fn view(&self) -> BlockIterView {
        BlockIterView {
            remainnum: self.remainnum,
            process: self.process,
            end: self.end,
            chunk_size: self.chunk_size,
        }
    }
}

impl Block {
    /// The block of the range `process..end`.
    pub fn new(process: u64, end: u64) -> (b: Self)
        ensures
            b@ == (process, end),
    {
        Block { process, end }
    }

    /// Splits the remaining range into `num` parts of equal size (the size
    /// rounded down).
    pub fn splits(&mut self, num: u8) -> (it: BlockIter)
        requires
            old(self)@.0 <= old(self)@.1,
            num > 0,
        ensures
            final(self)@ == old(self)@,
            it@ == (BlockIterView {
                remainnum: num,
                process: old(self)@.0,
                end: old(self)@.1,
                chunk_size: ((old(self)@.1 - old(self)@.0) / (num as int)) as u64,
            }),
    {
        BlockIter {
            remainnum: num,
            process: self.process,
            end: self.end,
            chunk_size: (self.end - self.process) / num as u64,
        }
    }

    /// How far the download has come.
    pub fn process(&self) -> (p: u64)
        ensures
            p == self@.0,
    {
        self.process
    }

    /// The end of the range.
    pub fn end(&self) -> (e: u64)
        ensures
            e == self@.1,
    {
        self.end
    }

    /// How many bytes are left.
    pub fn remaining(&self) -> (r: u64)
        requires
            self@.0 <= self@.1,
        ensures
            r == self@.1 - self@.0,
    {
        self.end - self.process
    }

    /// Whether the whole range has been downloaded.
    pub fn process_done(&self) -> (d: bool)
        requires
            self@.0 <= self@.1,
        ensures
            d == (self@.0 == self@.1),
    {
        self.process == self.end
    }
}

impl BlockIter {
    /// The parts left, the start, the end and the size of a part.
    pub fn parts(&self) -> (r: (u8, u64, u64, u64))
        ensures
            r == (self@.remainnum, self@.process, self@.end, self@.chunk_size),
    {
        (self.remainnum, self.process, self.end, self.chunk_size)
    }
}

/// The lifecycle state of the task that downloads a block; while a request
/// is out or data comes in, the state carries the handle of that task.
pub enum BlockState<T> {
    /// Waiting to be picked up.
    Pending,
    /// A ranged GET request is being sent by `task`.
    Requesting { task: T },
    /// The response body is being received by `task`.
    Receving { task: T },
    /// The whole range has been received.
    Done,
}

impl<T> BlockState<T> {
    /// Whether a task works on the block: `Requesting` or `Receving`.
    pub open spec fn spec_is_running(&self) -> bool {
        self is Requesting || self is Receving
    }

    /// Whether a task works on the block: `Requesting` or `Receving`.
    pub fn is_running(&self) -> (r: bool)
        ensures
            r == self.spec_is_running(),
    {
        match self {
            BlockState::Requesting { .. } | BlockState::Receving { .. } => true,
            _ => false,
        }
    }
}

/// A block's lifecycle state, stored as a one-byte code beside the handle
/// of the task that works on the block.
pub struct AtomBlockState<T> {
    state: u8,
    abort_handle: Option<T>,
}

impl<T> AtomBlockState<T> {
    /// The code is one of four, and a handle is kept exactly while the code
    /// says that a task works on the block.
    #[verifier::type_invariant]
    spec fn well_formed(self) -> bool {
        &&& self.state < 4
        &&& (self.state == 1 || self.state == 2) <==> self.abort_handle is Some
    }

    /// The stored state.
    pub closed spec fn spec_state(self) -> BlockState<T> {
        if self.state == 0 {
            BlockState::Pending
        } else if self.state == 1 {
            BlockState::Requesting { task: self.abort_handle->0 }
        } else if self.state == 2 {
            BlockState::Receving { task: self.abort_handle->0 }
        } else {
            BlockState::Done
        }
    }

    /// A holder of `state`.
    pub fn new(state: BlockState<T>) -> (s: Self)
        ensures
            s.spec_state() == state,
    {
        match state {
            BlockState::Pending => AtomBlockState { state: 0, abort_handle: None },
            BlockState::Requesting { task } => AtomBlockState { state: 1, abort_handle: Some(task) },
            BlockState::Receving { task } => AtomBlockState { state: 2, abort_handle: Some(task) },
            BlockState::Done => AtomBlockState { state: 3, abort_handle: None },
        }
    }

    /// A holder of `Pending`.
    pub fn waiting() -> (s: Self)
        ensures
            s.spec_state() == BlockState::<T>::Pending,
    {
        Self::new(BlockState::Pending)
    }

    /// A holder of `Done`.
    pub fn done() -> (s: Self)
        ensures
            s.spec_state() == BlockState::<T>::Done,
    {
        Self::new(BlockState::Done)
    }

    /// The stored state, with a reference to the task's handle.
    pub fn get(&self) -> (s: BlockState<&T>)
        ensures
            match self.spec_state() {
                BlockState::Pending => s is Pending,
                BlockState::Requesting { task } => s matches BlockState::Requesting { task: t }
                    && *t == task,
                BlockState::Receving { task } => s matches BlockState::Receving { task: t } && *t
                    == task,
                BlockState::Done => s is Done,
            },
    {
        proof {
            use_type_invariant(self);
        }
        if self.state == 0 {
            BlockState::Pending
        } else if self.state == 1 {
            match &self.abort_handle {
                Some(task) => BlockState::Requesting { task },
                None => BlockState::Pending,
            }
        } else if self.state == 2 {
            match &self.abort_handle {
                Some(task) => BlockState::Receving { task },
                None => BlockState::Pending,
            }
        } else {
            BlockState::Done
        }
    }

    /// Stores `state`.
    pub fn set(&mut self, state: BlockState<T>)
        ensures
            final(self).spec_state() == state,
    {
        *self = Self::new(state);
    }

    /// A request for the block is sent by the task behind `abort_handle`;
    /// no task may be working on the block.
    pub fn on_requesting(&mut self, abort_handle: T)
        requires
            !old(self).spec_state().spec_is_running(),
        ensures
            final(self).spec_state() == (BlockState::Requesting { task: abort_handle }),
    {
        self.set(BlockState::Requesting { task: abort_handle });
    }

    /// The requesting task starts to receive the response body.
    pub fn on_receiving(&mut self)
        requires
            old(self).spec_state() is Requesting,
        ensures
            final(self).spec_state() == (BlockState::Receving {
                task: old(self).spec_state()->Requesting_task,
            }),
    {
        proof {
            use_type_invariant(&*self);
        }
        let mut previous = Self::new(BlockState::Pending);
        std::mem::swap(self, &mut previous);
        let AtomBlockState { state: _, abort_handle } = previous;
        match abort_handle {
            Some(task) => self.set(BlockState::Receving { task }),
            None => self.set(BlockState::Pending),
        }
    }

    /// The working task stopped before the block was done; its handle is
    /// dropped and the block waits again.
    pub fn set_waiting(&mut self)
        requires
            old(self).spec_state().spec_is_running(),
        ensures
            final(self).spec_state() == BlockState::<T>::Pending,
    {
        self.set(BlockState::Pending);
    }

    /// The working task finished the block; its handle is dropped.
    pub fn set_done(&mut self)
        requires
            old(self).spec_state().spec_is_running(),
        ensures
            final(self).spec_state() == BlockState::<T>::Done,
    {
        self.set(BlockState::Done);
    }

    /// Whether a task works on the block: `Requesting` or `Receving`.
    pub fn running(&self) -> (r: bool)
        ensures
            r == self.spec_state().spec_is_running(),
    {
        match self.get() {
            BlockState::Requesting { .. } | BlockState::Receving { .. } => true,
            _ => false,
        }
    }
}

/// Whether two byte strings are equal.
fn bytes_equal(a: &[u8], b: &[u8]) -> (r: bool)
    ensures
        r == (a@ == b@),
{
    if a.len() != b.len() {
        return false;
    }
    let mut i: usize = 0;
    while i < a.len()
        invariant
            a@.len() == b@.len(),
            i <= a@.len(),
            forall|j: int| 0 <= j < i ==> a@[j] == b@[j],
        decreases a@.len() - i,
    {
        if a[i] != b[i] {
            return false;
        }
        i = i + 1;
    }
    proof {
        assert(a@ =~= b@);
    }
    true
}

/// How a resumed or split download makes sure that the file on the server
/// is still the one it started on: by its entity tag, by its modification
/// date, or not at all.
pub enum CheckType {
    ETag(Vec<u8>),
    LastMotifield(Vec<u8>),
    NoCheck,
}

/// The abstract value of a `CheckType`.
pub enum CheckTypeView {
    ETag(Seq<u8>),
    LastMotifield(Seq<u8>),
    NoCheck,
}

impl View for CheckType {
    type V = CheckTypeView;

    open spec fn view(&self) -> CheckTypeView {
        match self {
            CheckType::ETag(v) => CheckTypeView::ETag(v@),
            CheckType::LastMotifield(v) => CheckTypeView::LastMotifield(v@),
            CheckType::NoCheck => CheckTypeView::NoCheck,
        }
    }
}

/// The view of an optional header value.
pub open spec fn opt_bytes(h: Option<&[u8]>) -> Option<Seq<u8>> {
    match h {
        Some(v) => Some(v@),
        None => None,
    }
}

/// The check chosen for a response with the given `ETag` and
/// `Last-Modified` header values: the entity tag when there is one, the
/// modification date otherwise, and none when neither is there.
pub open spec fn spec_check_type(etag: Option<Seq<u8>>, last_modified: Option<Seq<u8>>) -> CheckTypeView {
    match etag {
        Some(e) => CheckTypeView::ETag(e),
        None => match last_modified {
            Some(l) => CheckTypeView::LastMotifield(l),
            None => CheckTypeView::NoCheck,
        },
    }
}

/// Whether a later response with the given header values passes the check.
pub open spec fn spec_check(check: CheckTypeView, etag: Option<Seq<u8>>, last_modified: Option<Seq<u8>>) -> bool {
    match check {
        CheckTypeView::ETag(e) => etag == Some(e),
        CheckTypeView::LastMotifield(l) => last_modified == Some(l),
        CheckTypeView::NoCheck => true,
    }
}

impl CheckType {
    /// Chooses the check from the `ETag` and `Last-Modified` header values
    /// of the first response.
    pub fn with_response(etag: Option<&[u8]>, last_modified: Option<&[u8]>) -> (c: Self)
        ensures
            c@ == spec_check_type(opt_bytes(etag), opt_bytes(last_modified)),
    {
        if let Some(etag) = etag {
            CheckType::ETag(slice_to_vec(etag))
        } else if let Some(last_motifield) = last_modified {
            CheckType::LastMotifield(slice_to_vec(last_motifield))
        } else {
            CheckType::NoCheck
        }
    }

    /// Whether a later response, with the given header values, still shows
    /// the same file; the header that the check compares must be present.
    pub fn check(&self, etag: Option<&[u8]>, last_modified: Option<&[u8]>) -> (same: bool)
        requires
            self@ is ETag ==> etag is Some,
            self@ is LastMotifield ==> last_modified is Some,
        ensures
            same == spec_check(self@, opt_bytes(etag), opt_bytes(last_modified)),
    {
        match self {
            CheckType::ETag(tag) => {
                match etag {
                    Some(header) => bytes_equal(header, tag.as_slice()),
                    None => false,
                }
            },
            CheckType::LastMotifield(date) => {
                match last_modified {
                    Some(header) => bytes_equal(header, date.as_slice()),
                    None => false,
                }
            },
            CheckType::NoCheck => true,
        }
    }

    /// The value of the `If-Range` header that ranged requests carry, if
    /// any: the entity tag or the modification date.
    pub fn if_range_value(&self) -> (v: Option<&[u8]>)
        ensures
            match self@ {
                CheckTypeView::ETag(e) => opt_bytes(v) == Some(e),
                CheckTypeView::LastMotifield(l) => opt_bytes(v) == Some(l),
                CheckTypeView::NoCheck => v is None,
            },
    {
        match self {
            CheckType::ETag(etag) => Some(etag.as_slice()),
            CheckType::LastMotifield(last_motifield) => Some(last_motifield.as_slice()),
            CheckType::NoCheck => None,
        }
    }
}

/// An even split covers the remaining range up to less than one byte per
/// part: `num` parts of the split size fit in the range, and one more byte
/// per part would overrun it.
pub proof fn lemma_split_covers_range(process: u64, end: u64, num: u8, chunk_size: u64)
    requires
        process <= end,
        num > 0,
        chunk_size == (end - process) / (num as int),
    ensures
        num * chunk_size <= end - process,
        end - process < num * (chunk_size + 1),
{
    let r: int = end - process;
    let n: int = num as int;
    assert(r == n * (r / n) + r % n) by (nonlinear_arith)
        requires
            n > 0,
    ;
    assert(0 <= r % n < n) by (nonlinear_arith)
        requires
            n > 0,
    ;
    assert(n * (chunk_size + 1) == n * chunk_size + n) by (nonlinear_arith);
}

/// A response passes the check made from its own headers.
pub proof fn lemma_check_accepts_same_headers(etag: Option<Seq<u8>>, last_modified: Option<Seq<u8>>)
    ensures
        spec_check(spec_check_type(etag, last_modified), etag, last_modified),
{
}

/// A response whose entity tag differs from the one the check was made with
/// fails it, and so does one whose modification date differs when the check
/// was made without an entity tag.
pub proof fn lemma_check_rejects_changed_file(
    etag: Option<Seq<u8>>,
    last_modified: Option<Seq<u8>>,
    later_etag: Option<Seq<u8>>,
    later_last_modified: Option<Seq<u8>>,
)
    ensures
        etag is Some && later_etag != etag ==> !spec_check(
            spec_check_type(etag, last_modified),
            later_etag,
            later_last_modified,
        ),
        etag is None && last_modified is Some && later_last_modified != last_modified ==> !spec_check(
            spec_check_type(etag, last_modified),
            later_etag,
            later_last_modified,
        ),
{
}

} // verus!
