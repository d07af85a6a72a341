//! A download block: a byte range `start..end` of the target, how far the
//! download of that range has progressed, and the lifecycle state of the task
//! that works on it.

use vstd::prelude::*;

verus! {

/// The lifecycle state of the task that downloads a block.
#[derive(PartialEq, Eq, Structural, Debug, Clone, Copy)]
pub enum BlockState {
    /// Waiting to be picked up.
    Pending,
    /// A ranged GET request is being sent.
    Requesting,
    /// The body of the response is being received.
    Receving,
    /// The whole range has been received.
    Done,
}

/// The one-byte code under which a state is stored.
pub open spec fn state_code(state: BlockState) -> u8 {
    match state {
        BlockState::Pending => 0,
        BlockState::Requesting => 1,
        BlockState::Receving => 2,
        BlockState::Done => 3,
    }
}

/// The state that a valid one-byte code stands for.
pub open spec fn state_of_code(code: u8) -> BlockState {
    if code == 0 {
        BlockState::Pending
    } else if code == 1 {
        BlockState::Requesting
    } else if code == 2 {
        BlockState::Receving
    } else {
        BlockState::Done
    }
}

/// Whether a task is at work on a block in this state: sending its request
/// or receiving its data.
pub open spec fn counts_as_running(state: BlockState) -> bool {
    state == BlockState::Requesting || state == BlockState::Receving
}

/// A block state stored as a one-byte code.
pub struct AtomBlockState {
    state: u8,
}

impl AtomBlockState {
    /// Only the four codes of `state_code` are ever stored.
    #[verifier::type_invariant]
    spec fn code_is_valid(self) -> bool {
        self.state < 4
    }
}

impl View for AtomBlockState {
    type V = BlockState;

    closed spec fn view(&self) -> BlockState {
        state_of_code(self.state)
    }
}

impl AtomBlockState {
    /// A state holder that starts out `Pending`.
    pub fn pending() -> (s: Self)
        ensures
            s@ == BlockState::Pending,
    {
        AtomBlockState { state: 0 }
    }

    /// Decodes the stored state.
    pub fn get(&self) -> (s: BlockState)
        ensures
            s == self@,
    {
        proof {
            use_type_invariant(self);
        }
        if self.state == 0 {
            BlockState::Pending
        } else if self.state == 1 {
            BlockState::Requesting
        } else if self.state == 2 {
            BlockState::Receving
        } else {
            BlockState::Done
        }
    }

    /// The stored code: always one of the four valid codes, the code of the
    /// stored state.
    pub fn code(&self) -> (c: u8)
        ensures
            c < 4,
            c == state_code(self@),
    {
        proof {
            use_type_invariant(self);
        }
        self.state
    }

    /// Encodes and stores `state`.
    pub fn set(&mut self, state: BlockState)
        ensures
            final(self)@ == state,
    {
        let val: u8 = match state {
            BlockState::Pending => 0,
            BlockState::Requesting => 1,
            BlockState::Receving => 2,
            BlockState::Done => 3,
        };
        self.state = val;
    }

    /// Whether a task is at work on the block: `Requesting` or `Receving`.
    pub fn running(&self) -> (r: bool)
        ensures
            r == counts_as_running(self@),
    {
        match self.get() {
            BlockState::Requesting | BlockState::Receving => true,
            _ => false,
        }
    }
}


/// The abstract value of a block.
pub struct BlockView {
    pub start: u64,
    pub process: u64,
    pub end: u64,
    pub state: BlockState,
}

/// One range of the target and the progress made on it, whether the target
/// is downloaded by one task or split among many.
pub struct Block {
    pub(crate) start: u64,
    pub(crate) process: u64,
    pub(crate) end: u64,
    pub(crate) state: AtomBlockState,
}

impl View for Block {
    type V = BlockView;

    closed spec fn view(&self) -> BlockView {
        BlockView { start: self.start, process: self.process, end: self.end, state: self.state@ }
    }
}

/// A change that the crate's operations make to an existing block.
pub enum BlockOp {
    /// `Block::set_state`.
    SetState(BlockState),
    /// `BlockGuard::new` (and `Block::get_guard`).
    Guard,
    /// `BlockGuard::release`.
    Release,
}

/// The block after one operation.
pub open spec fn block_step(b: BlockView, op: BlockOp) -> BlockView {
    match op {
        BlockOp::SetState(state) => BlockView { state, ..b },
        BlockOp::Guard => BlockView { state: BlockState::Receving, ..b },
        BlockOp::Release => BlockView { state: released_state(b), ..b },
    }
}

/// The block after a sequence of operations, first to last.
pub open spec fn run_block_ops(b: BlockView, ops: Seq<BlockOp>) -> BlockView
    decreases ops.len(),
{
    if ops.len() == 0 {
        b
    } else {
        run_block_ops(block_step(b, ops[0]), ops.drop_first())
    }
}

impl Block {
    /// A `Pending` block over `start..end` that has reached `process`.
    pub fn new(start: u64, process: u64, end: u64) -> (b: Self)
        ensures
            b@ == (BlockView { start, process, end, state: BlockState::Pending }),
    {
        Block { start, process, end, state: AtomBlockState::pending() }
    }

    /// Hands the block to a guard that marks it as receiving until released.
    pub fn get_guard(self) -> (g: BlockGuard)
        requires
            !counts_as_running(self@.state),
        ensures
            g@ == block_step(self@, BlockOp::Guard),
    {
        BlockGuard::new(self)
    }

    /// How far the download of the range has come.
    pub fn get_process(&self) -> (p: u64)
        ensures
            p == self@.process,
    {
        self.process
    }

    /// The end of the range.
    pub fn get_end(&self) -> (e: u64)
        ensures
            e == self@.end,
    {
        self.end
    }

    /// The lifecycle state of the block.
    pub fn get_state(&self) -> (s: BlockState)
        ensures
            s == self@.state,
    {
        self.state.get()
    }

    /// Sets the lifecycle state and leaves the range and progress as they are.
    pub fn set_state(&mut self, state: BlockState)
        ensures
            final(self)@ == block_step(old(self)@, BlockOp::SetState(state)),
    {
        self.state.set(state)
    }

    /// Whether a task is at work on the block: `Requesting` or `Receving`.
    pub fn is_running(&self) -> (r: bool)
        ensures
            r == counts_as_running(self@.state),
    {
        self.state.running()
    }

    /// Whether the progress has reached the end of the range.
    pub fn process_done(&self) -> (d: bool)
        ensures
            d == (self@.process == self@.end),
    {
        if self.process == self.end {
            true
        } else {
            false
        }
    }
}

/// Exclusive access to a block while its data is being received: made, the
/// guard marks the block `Receving`; released, it marks it `Done` when the
/// progress has reached the end of the range and `Pending` otherwise.
pub struct BlockGuard {
    block: Block,
}

impl BlockGuard {
    /// The guarded block stays `Receving` as long as it is guarded.
    #[verifier::type_invariant]
    spec fn receiving(self) -> bool {
        self.block@.state == BlockState::Receving
    }
}

impl View for BlockGuard {
    type V = BlockView;

    closed spec fn view(&self) -> BlockView {
        self.block@
    }
}

/// The state in which a released guard leaves its block.
pub open spec fn released_state(b: BlockView) -> BlockState {
    if b.process == b.end {
        BlockState::Done
    } else {
        BlockState::Pending
    }
}

impl BlockGuard {
    /// Takes the block, which must not be running, and marks it `Receving`.
    pub fn new(block: Block) -> (g: Self)
        requires
            !counts_as_running(block@.state),
        ensures
            g@ == block_step(block@, BlockOp::Guard),
    {
        let mut block = block;
        block.set_state(BlockState::Receving);
        BlockGuard { block }
    }

    /// Gives the block back, `Done` if its progress reached the end of its
    /// range and `Pending` otherwise.
    pub fn release(self) -> (b: Block)
        ensures
            self@.state == BlockState::Receving,
            b@ == block_step(self@, BlockOp::Release),
    {
        proof {
            use_type_invariant(&self);
        }
        let BlockGuard { block } = self;
        let mut block = block;
        if block.process_done() {
            block.set_state(BlockState::Done);
        } else {
            block.set_state(BlockState::Pending);
        }
        block
    }
}

impl std::ops::Deref for BlockGuard {
    type Target = Block;

    /// The guarded block.
    fn deref(&self) -> (b: &Block)
        ensures
            b@ == self@,
            b@.state == BlockState::Receving,
    {
        proof {
            use_type_invariant(self);
        }
        &self.block
    }
}

/// A block without its lifecycle state, as it is kept between runs.
pub struct StaticBlock {
    start: u64,
    process: u64,
    end: u64,
}

impl View for StaticBlock {
    type V = (u64, u64, u64);

    closed spec fn view(&self) -> (u64, u64, u64) {
        (self.start, self.process, self.end)
    }
}

impl StaticBlock {
    /// The range start, progress and range end.
    pub fn parts(&self) -> (r: (u64, u64, u64))
        ensures
            r == self@,
    {
        (self.start, self.process, self.end)
    }
}

impl From<Block> for StaticBlock {
    fn from(block: Block) -> (s: Self) {
        StaticBlock { start: block.start, process: block.process, end: block.end }
    }
}

impl vstd::std_specs::convert::FromSpecImpl<Block> for StaticBlock {
    open spec fn obeys_from_spec() -> bool {
        true
    }

    closed spec fn from_spec(block: Block) -> Self {
        StaticBlock { start: block.start, process: block.process, end: block.end }
    }
}

impl From<StaticBlock> for Block {
    fn from(state_block: StaticBlock) -> (b: Self) {
        Block {
            start: state_block.start,
            process: state_block.process,
            end: state_block.end,
            state: AtomBlockState::pending(),
        }
    }
}

impl vstd::std_specs::convert::FromSpecImpl<StaticBlock> for Block {
    open spec fn obeys_from_spec() -> bool {
        true
    }

    closed spec fn from_spec(state_block: StaticBlock) -> Self {
        Block {
            start: state_block.start,
            process: state_block.process,
            end: state_block.end,
            state: AtomBlockState { state: 0 },
        }
    }
}

/// Keeping a block drops only its lifecycle state: the kept form holds the
/// block's range and progress.
pub proof fn lemma_keep_block(block: Block)
    ensures
        <StaticBlock as vstd::std_specs::convert::FromSpec<Block>>::from_spec(block)@
            == (block@.start, block@.process, block@.end),
{
}

/// Restoring a kept block gives back its range and progress, `Pending`.
pub proof fn lemma_restore_block(state_block: StaticBlock)
    ensures
        <Block as vstd::std_specs::convert::FromSpec<StaticBlock>>::from_spec(state_block)@
            == (BlockView {
                start: state_block@.0,
                process: state_block@.1,
                end: state_block@.2,
                state: BlockState::Pending,
            }),
{
}

/// The one-byte encoding of states is faithful: decoding the code of a state
/// gives the state back, and every code is one of the four valid ones.
pub proof fn lemma_state_code_roundtrip(state: BlockState)
    ensures
        state_code(state) < 4,
        state_of_code(state_code(state)) == state,
{
}

/// A block that no task works on (`Pending` or `Done`) can be guarded, and it
/// comes back from the guard with its range and progress unchanged, `Done`
/// exactly when its progress reached the end of its range and `Pending`
/// otherwise; either way it can be guarded again.
pub proof fn lemma_guard_cycle(before: BlockView, guarded: BlockView, after: BlockView)
    requires
        !counts_as_running(before.state),
        guarded == block_step(before, BlockOp::Guard),
        after == block_step(guarded, BlockOp::Release),
    ensures
        before.state == BlockState::Pending || before.state == BlockState::Done,
        counts_as_running(guarded.state),
        after.start == before.start && after.process == before.process && after.end == before.end,
        (after.state == BlockState::Done) <==> (before.process == before.end),
        (after.state == BlockState::Pending) <==> (before.process != before.end),
        !counts_as_running(after.state),
{
}

/// Keeping a block and restoring it gives back its range and progress, in
/// the `Pending` state.
pub proof fn lemma_keep_then_restore(block: Block)
    ensures
        <Block as vstd::std_specs::convert::FromSpec<StaticBlock>>::from_spec(
            <StaticBlock as vstd::std_specs::convert::FromSpec<Block>>::from_spec(block),
        )@ == (BlockView { state: BlockState::Pending, ..block@ }),
{
}

/// Restoring a kept block and keeping it again gives the same kept block.
pub proof fn lemma_restore_then_keep(state_block: StaticBlock)
    ensures
        <StaticBlock as vstd::std_specs::convert::FromSpec<Block>>::from_spec(
            <Block as vstd::std_specs::convert::FromSpec<StaticBlock>>::from_spec(state_block),
        )@ == state_block@,
{
}

/// Each operation leaves the block in the state it is meant to: a state that
/// is set is the state read back, a guarded block is receiving, and a
/// released block is done exactly when its progress reached its end and
/// waits otherwise; and the block counts as running exactly when a task is
/// requesting or receiving it.
pub proof fn lemma_block_step_state(b: BlockView, state: BlockState)
    ensures
        block_step(b, BlockOp::SetState(state)).state == state,
        counts_as_running(block_step(b, BlockOp::SetState(state)).state) <==> (state
            == BlockState::Requesting || state == BlockState::Receving),
        block_step(b, BlockOp::Guard).state == BlockState::Receving,
        b.process == b.end ==> block_step(b, BlockOp::Release).state == BlockState::Done,
        b.process != b.end ==> block_step(b, BlockOp::Release).state == BlockState::Pending,
        !counts_as_running(block_step(b, BlockOp::Release).state),
{
}

/// No operation moves a block's range or progress: after any sequence of
/// state changes, guards and releases, the start, the progress and the end
/// are those the block had.
pub proof fn lemma_ops_keep_range(b: BlockView, ops: Seq<BlockOp>)
    ensures
        run_block_ops(b, ops).start == b.start,
        run_block_ops(b, ops).process == b.process,
        run_block_ops(b, ops).end == b.end,
    decreases ops.len(),
{
    if ops.len() > 0 {
        lemma_ops_keep_range(block_step(b, ops[0]), ops.drop_first());
    }
}

} // verus!
