use dlcore::downloader::{AtomBlockState, Block, BlockState, CheckType};

#[test]
fn split_into_equal_parts() {
    let mut b = Block::new(100, 1100);
    let it = b.splits(3);
    assert_eq!(it.parts(), (3, 100, 1100, 333));
    assert_eq!(b.process(), 100);
    assert_eq!(b.end(), 1100);
    assert_eq!(b.remaining(), 1000);
    assert!(!b.process_done());
    assert!(Block::new(5, 5).process_done());
}

#[test]
fn running_states_carry_the_task() {
    assert!(!BlockState::<u8>::Pending.is_running());
    assert!(BlockState::Requesting { task: 1u8 }.is_running());
    assert!(BlockState::Receving { task: 1u8 }.is_running());
    assert!(!BlockState::<u8>::Done.is_running());
}

#[test]
fn task_lifecycle() {
    let mut s: AtomBlockState<&str> = AtomBlockState::waiting();
    assert!(matches!(s.get(), BlockState::Pending));
    assert!(!s.running());
    s.on_requesting("task-1");
    assert!(matches!(s.get(), BlockState::Requesting { task: &"task-1" }));
    assert!(s.running());
    s.on_receiving();
    assert!(matches!(s.get(), BlockState::Receving { task: &"task-1" }));
    assert!(s.running());
    s.set_done();
    assert!(matches!(s.get(), BlockState::Done));
    assert!(!s.running());
    let mut s: AtomBlockState<&str> = AtomBlockState::done();
    s.on_requesting("task-2");
    s.set_waiting();
    assert!(matches!(s.get(), BlockState::Pending));
    let s = AtomBlockState::new(BlockState::Receving { task: 9u8 });
    assert!(matches!(s.get(), BlockState::Receving { task: &9 }));
}

#[test]
fn check_prefers_entity_tag() {
    let c = CheckType::with_response(Some(b"\"abc\""), Some(b"Mon"));
    assert_eq!(c.if_range_value(), Some(&b"\"abc\""[..]));
    assert!(c.check(Some(b"\"abc\""), None));
    assert!(!c.check(Some(b"\"abd\""), Some(b"Mon")));
}

#[test]
fn check_falls_back_to_date_then_nothing() {
    let c = CheckType::with_response(None, Some(b"Mon"));
    assert_eq!(c.if_range_value(), Some(&b"Mon"[..]));
    assert!(c.check(None, Some(b"Mon")));
    assert!(!c.check(Some(b"x"), Some(b"Tue")));
    let c = CheckType::with_response(None, None);
    assert_eq!(c.if_range_value(), None);
    assert!(c.check(None, None));
}
