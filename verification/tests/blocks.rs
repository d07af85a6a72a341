use dlcore::blocks::{AtomBlockState, Block, BlockGuard, BlockState, StaticBlock};

#[test]
fn helloworld() {
    println!("hello world")
}

#[test]
fn new_block_is_pending_and_not_running() {
    let b = Block::new(10, 20, 100);
    assert_eq!(b.get_process(), 20);
    assert_eq!(b.get_end(), 100);
    assert_eq!(b.get_state(), BlockState::Pending);
    assert!(!b.is_running());
    assert!(!b.process_done());
}

#[test]
fn running_means_requesting_or_receiving() {
    let mut s = AtomBlockState::pending();
    assert_eq!(s.get(), BlockState::Pending);
    assert!(!s.running());
    s.set(BlockState::Requesting);
    assert_eq!(s.get(), BlockState::Requesting);
    assert!(s.running());
    s.set(BlockState::Receving);
    assert_eq!(s.get(), BlockState::Receving);
    assert!(s.running());
    s.set(BlockState::Done);
    assert_eq!(s.get(), BlockState::Done);
    assert!(!s.running());
}

#[test]
fn pending_block_is_guarded_and_guarded_again() {
    let b = Block::new(0, 10, 20);
    let g = b.get_guard();
    assert_eq!(g.get_state(), BlockState::Receving);
    assert!(g.is_running());
    let b = g.release();
    assert_eq!(b.get_state(), BlockState::Pending);
    assert_eq!((b.get_process(), b.get_end()), (10, 20));
    let g = BlockGuard::new(b);
    assert_eq!(g.get_process(), 10);
}

#[test]
fn stored_codes() {
    let mut s = AtomBlockState::pending();
    assert_eq!(s.code(), 0);
    s.set(BlockState::Requesting);
    assert_eq!(s.code(), 1);
    s.set(BlockState::Receving);
    assert_eq!(s.code(), 2);
    s.set(BlockState::Done);
    assert_eq!(s.code(), 3);
}

#[test]
fn set_state_keeps_range() {
    let mut b = Block::new(0, 5, 9);
    b.set_state(BlockState::Done);
    assert_eq!(b.get_state(), BlockState::Done);
    assert_eq!(b.get_process(), 5);
    assert_eq!(b.get_end(), 9);
}

#[test]
fn process_done_when_process_reaches_end() {
    let b = Block::new(0, 9, 9);
    assert!(b.process_done());
}

#[test]
fn guard_marks_receiving_and_releases_done() {
    let b = Block::new(0, 64, 64);
    let g = BlockGuard::new(b);
    assert_eq!(g.get_state(), BlockState::Receving);
    assert_eq!(g.get_process(), 64);
    let b = g.release();
    assert_eq!(b.get_state(), BlockState::Done);
    assert_eq!(b.get_end(), 64);
}

#[test]
fn guard_releases_unfinished_block_pending() {
    let mut b = Block::new(0, 3, 64);
    b.set_state(BlockState::Done);
    let g = b.get_guard();
    assert_eq!(g.get_state(), BlockState::Receving);
    let b = g.release();
    assert_eq!(b.get_state(), BlockState::Pending);
    assert_eq!(b.get_process(), 3);
}

#[test]
fn keep_and_restore_block() {
    let mut b = Block::new(7, 8, 9);
    b.set_state(BlockState::Done);
    let kept = StaticBlock::from(b);
    assert_eq!(kept.parts(), (7, 8, 9));
    let restored = Block::from(kept);
    assert_eq!(restored.get_state(), BlockState::Pending);
    assert_eq!(restored.get_process(), 8);
    assert_eq!(restored.get_end(), 9);
    let again = StaticBlock::from(restored);
    assert_eq!(again.parts(), (7, 8, 9));
}
