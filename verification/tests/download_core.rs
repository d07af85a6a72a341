use dlcore::download_core::{
    optional_skip_prefix, optional_take_prefix, plan_chunk_write, plan_jump_step, skip_prefix,
    take_prefix, JumpStep,
};
use std::ops::ControlFlow;

#[test]
fn download_core_test() {
    println!("hello world");
}

#[test]
fn take_prefix_cuts_or_keeps() {
    let chunk: &[u8] = &[1, 2, 3, 4, 5];
    assert_eq!(take_prefix(chunk, 2), ControlFlow::Break(&[1u8, 2][..]));
    assert_eq!(take_prefix(chunk, 5), ControlFlow::Break(&[1u8, 2, 3, 4, 5][..]));
    assert_eq!(take_prefix(chunk, 0), ControlFlow::Break(&[][..]));
    assert_eq!(take_prefix(chunk, 6), ControlFlow::Continue(chunk));
}

#[test]
fn skip_prefix_cuts_or_continues() {
    let chunk: &[u8] = &[1, 2, 3, 4, 5];
    assert_eq!(skip_prefix(chunk, 2), ControlFlow::Break(&[3u8, 4, 5][..]));
    assert_eq!(skip_prefix(chunk, 5), ControlFlow::Break(&[][..]));
    assert_eq!(skip_prefix(chunk, 6), ControlFlow::Continue(()));
}

#[test]
fn prefix_and_rest_rebuild_chunk() {
    let chunk: &[u8] = &[9, 8, 7, 6];
    let (ControlFlow::Break(p), ControlFlow::Break(r)) = (take_prefix(chunk, 1), skip_prefix(chunk, 1)) else {
        panic!("both must cut");
    };
    let mut joined = p.to_vec();
    joined.extend_from_slice(r);
    assert_eq!(joined, chunk.to_vec());
}

#[test]
fn optional_prefixes() {
    let chunk: &[u8] = &[1, 2, 3];
    assert_eq!(optional_take_prefix(chunk, None), ControlFlow::Continue(chunk));
    assert_eq!(optional_take_prefix(chunk, Some(1)), ControlFlow::Break(&[1u8][..]));
    assert_eq!(optional_take_prefix(chunk, Some(4)), ControlFlow::Continue(chunk));
    assert_eq!(optional_skip_prefix(chunk, None), ControlFlow::Continue(()));
    assert_eq!(optional_skip_prefix(chunk, Some(1)), ControlFlow::Break(&[2u8, 3][..]));
    assert_eq!(optional_skip_prefix(chunk, Some(4)), ControlFlow::Continue(()));
}

#[test]
fn chunk_write_cut_at_end() {
    let chunk: &[u8] = &[1, 2, 3, 4, 5, 6];
    let w = plan_chunk_write(chunk, Some(10), Some(7));
    assert_eq!(w.data, &[1u8, 2, 3][..]);
    assert_eq!(w.progress, 3);
    assert_eq!(w.flow, ControlFlow::Break(()));
}

#[test]
fn chunk_write_whole_chunk() {
    let chunk: &[u8] = &[1, 2, 3];
    let w = plan_chunk_write(chunk, Some(10), Some(7));
    assert_eq!(w.data, chunk);
    assert_eq!(w.progress, 3);
    assert_eq!(w.flow, ControlFlow::Continue(()));
    let w = plan_chunk_write(chunk, None, Some(9));
    assert_eq!(w.data, chunk);
    assert_eq!(w.flow, ControlFlow::Continue(()));
    let w = plan_chunk_write(chunk, Some(1), None);
    assert_eq!(w.data, chunk);
    assert_eq!(w.flow, ControlFlow::Continue(()));
}

#[test]
fn jump_skips_then_writes_from_target() {
    let chunk: &[u8] = &[10, 11, 12, 13];
    assert_eq!(plan_jump_step(chunk, 0, 4), JumpStep::Skip { progress: 4 });
    assert_eq!(plan_jump_step(chunk, 0, 10), JumpStep::Skip { progress: 4 });
    assert_eq!(
        plan_jump_step(chunk, 4, 6),
        JumpStep::Write { progress: 4, data: &[12u8, 13][..] }
    );
    assert_eq!(
        plan_jump_step(chunk, 4, 4),
        JumpStep::Write { progress: 4, data: &[10u8, 11, 12, 13][..] }
    );
}

#[test]
fn writing_loop_stops_at_range_end() {
    let chunks: [&[u8]; 3] = [b"hello ", b"world", b"!!!"];
    let end = 8u64;
    let mut process = 0u64;
    let mut out = Vec::new();
    for c in chunks {
        let w = plan_chunk_write(c, Some(end), Some(process));
        out.extend_from_slice(w.data);
        process += w.progress as u64;
        if w.flow == ControlFlow::Break(()) {
            break;
        }
    }
    assert_eq!(out, b"hello wo".to_vec());
    assert_eq!(process, 8);
}

#[test]
fn seek_then_write_gives_stream_from_target() {
    let chunks: [&[u8]; 3] = [b"hello ", b"world", b"!!!"];
    let jump_to = 8u64;
    let mut process = 0u64;
    let mut out = Vec::new();
    let mut found = false;
    for c in chunks {
        if found {
            out.extend_from_slice(c);
            continue;
        }
        match plan_jump_step(c, process, jump_to) {
            JumpStep::Skip { progress } => process += progress as u64,
            JumpStep::Write { progress, data } => {
                process += progress as u64;
                out.extend_from_slice(data);
                found = true;
            }
        }
    }
    assert!(found);
    assert_eq!(out, b"rld!!!".to_vec());
    assert_eq!(process, 11);
}
