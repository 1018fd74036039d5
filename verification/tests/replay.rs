use tron_node::config::ConfigError;
use tron_node::replay::{
    append_frame, block_number, read_frame_len, split_corpus, Dump, FileFault, FrameLen, Offer,
    Replay, ReplayError, StoredBlock, MAX_FRAME_LEN,
};

fn archive_of(bodies: &[Vec<u8>]) -> Vec<u8> {
    let mut out = vec![];
    for b in bodies {
        append_frame(&mut out, b);
    }
    out
}

#[test]
fn archives_split_into_the_blocks_written() {
    let bodies = vec![vec![1], vec![2; 300], vec![3; 70_000]];
    let data = archive_of(&bodies);
    assert_eq!(data[..4], [0, 0, 0, 1]);
    assert_eq!(data[5..9], [0, 0, 1, 44]);
    assert_eq!(split_corpus(&data, 10).unwrap(), bodies);
    assert_eq!(split_corpus(&data, 2).unwrap(), bodies[..2]);
    assert!(split_corpus(&data, 0).unwrap().is_empty());
}

#[test]
fn streams_end_at_a_zero_length_or_a_bad_one() {
    let mut data = archive_of(&[vec![1, 2]]);
    let good = data.len();
    data.extend_from_slice(&[0, 0, 0, 0, 9, 9]);
    assert_eq!(split_corpus(&data, 10).unwrap(), vec![vec![1, 2]]);
    data.truncate(good);
    data.extend_from_slice(&[0xff, 0xff, 0xff, 0xff, 9, 9]);
    assert_eq!(split_corpus(&data, 10).unwrap(), vec![vec![1, 2]]);
    assert_eq!(read_frame_len(&(MAX_FRAME_LEN as u32).to_be_bytes()), FrameLen::Body(MAX_FRAME_LEN));
    assert_eq!(read_frame_len(&(MAX_FRAME_LEN as u32 + 1).to_be_bytes()), FrameLen::Bad);
    assert_eq!(read_frame_len(&[]), FrameLen::End);
}

#[test]
fn truncated_streams_are_errors() {
    let err = split_corpus(&[0, 0], 1).unwrap_err();
    assert_eq!(err.message(), "block file: truncated frame length");
    let err = split_corpus(&[0, 0, 0, 5, 1, 2], 1).unwrap_err();
    assert!(matches!(err, ReplayError::Io(FileFault::TruncatedBody)));
    assert_eq!(err.message(), "block file: failed to fill whole buffer");
}

#[test]
fn failures_read_as_written() {
    assert_eq!(ReplayError::Storage("locked".to_string()).message(), "open storage: locked");
    assert_eq!(
        ReplayError::Config(ConfigError::VmConfig("x".to_string())).message(),
        "vm config: vm.x"
    );
    assert_eq!(
        ReplayError::Io(FileFault::Other("gone".to_string())).message(),
        "block file: gone"
    );
}

#[test]
fn replays_skip_apply_and_stop() {
    let mut r = Replay::new(100, 103);
    assert_eq!(r.offer(99), Offer::Skip);
    assert_eq!(r.offer(100), Offer::Skip);
    assert_eq!(r.offer(101), Offer::Apply);
    assert!(r.settle(101, 1));
    assert_eq!(r.offer(102), Offer::Apply);
    assert!(r.settle(102, 2));
    assert_eq!(r.offer(104), Offer::Stop);
    assert_eq!(r.offer(103), Offer::Apply);
    assert!(!r.settle(103, 3), "the last block asked for ends the run");
    assert_eq!(r.report.applied, 3);
    assert_eq!(r.report.skipped, 2);
    assert_eq!(r.report.head, 103);
}

#[test]
fn a_block_that_is_not_applied_ends_the_run() {
    let mut r = Replay::new(100, 200);
    assert_eq!(r.offer(101), Offer::Apply);
    assert!(!r.settle(101, 0));
    assert_eq!(r.report.head, 100);
    assert_eq!(block_number(None), -1);
}

fn stored(number: i64) -> StoredBlock {
    StoredBlock { number: Some(number), bytes: vec![number as u8; 3] }
}

#[test]
fn dumps_write_each_height_once() {
    let mut d = Dump::new(5, 8);
    assert_eq!(d.wanted(), Some(4));
    let mut out = vec![];
    // A second block at a height is left out.
    let chunk = vec![stored(5), stored(6), stored(6), stored(7)];
    assert!(d.write_chunk(&chunk, &mut out));
    assert_eq!(d.wanted(), Some(1));
    // Nothing beyond the ceiling.
    assert!(!d.write_chunk(&vec![stored(8), stored(9)], &mut out));
    assert_eq!((d.report.written, d.report.first, d.report.last), (4, 5, 8));
    assert_eq!(d.wanted(), None);
    let bodies = split_corpus(&out, 100).unwrap();
    assert_eq!(bodies, vec![vec![5; 3], vec![6; 3], vec![7; 3], vec![8; 3]]);
}

#[test]
fn dumps_stop_where_the_store_ends() {
    let mut d = Dump::new(5, 1_000);
    assert_eq!(d.wanted(), Some(256));
    let mut out = vec![];
    assert!(!d.write_chunk(&vec![], &mut out));
    assert!(!d.write_chunk(&vec![stored(4)], &mut out), "nothing new");
    assert_eq!((d.report.written, d.report.first, d.report.last), (0, -1, -1));
    assert!(out.is_empty());
}
