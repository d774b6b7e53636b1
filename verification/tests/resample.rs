use minau::resample::{needs_resampling, ChunkQueue};

#[test]
fn resampling_is_needed_exactly_when_rates_differ() {
    assert!(!needs_resampling(48000, 48000));
    assert!(needs_resampling(44100, 48000));
    assert!(needs_resampling(48000, 44100));
    assert!(!needs_resampling(0, 0));
}

#[test]
fn queue_needs_frames_and_channels() {
    assert!(ChunkQueue::<i32>::new(0, 2).is_none());
    assert!(ChunkQueue::<i32>::new(4, 0).is_none());
    assert!(ChunkQueue::<i32>::new(usize::MAX, 2).is_none());
    let q = ChunkQueue::<i32>::new(1024, 2).unwrap();
    assert_eq!(q.chunk_frames(), 1024);
    assert_eq!(q.channels(), 2);
    assert_eq!(q.backlog_len(), 0);
    assert!(!q.ready());
}

#[test]
fn chunk_is_cut_by_channel() {
    let mut q = ChunkQueue::<i32>::new(3, 2).unwrap();
    q.feed(&[10, 11, 20, 21]);
    assert!(!q.ready());
    assert_eq!(q.chunk(), None);
    q.feed(&[30, 31, 40]);
    assert!(q.ready());
    assert_eq!(q.chunk(), Some(vec![vec![10, 20, 30], vec![11, 21, 31]]));
    // asking again gives the same chunk: it leaves only when accepted
    assert_eq!(q.chunk(), Some(vec![vec![10, 20, 30], vec![11, 21, 31]]));
    assert_eq!(q.backlog_len(), 7);
}

#[test]
fn accepted_conversion_is_interleaved_and_the_chunk_leaves() {
    let mut q = ChunkQueue::<i32>::new(2, 2).unwrap();
    q.feed(&[1, 2, 3, 4, 5]);
    assert!(q.accept(&vec![vec![100, 101, 102], vec![200, 201, 202]]));
    assert_eq!(q.backlog_len(), 1);
    assert!(!q.ready());
    assert_eq!(q.take_output(), vec![100, 200, 101, 201, 102, 202]);
    assert_eq!(q.take_output(), Vec::<i32>::new());
}

#[test]
fn conversion_rows_are_cut_to_the_first_and_extra_rows_ignored() {
    let mut q = ChunkQueue::<i32>::new(1, 2).unwrap();
    q.feed(&[1, 2]);
    assert!(q.accept(&vec![vec![7], vec![8, 9], vec![5, 5, 5]]));
    assert_eq!(q.take_output(), vec![7, 8]);
}

#[test]
fn empty_conversion_still_takes_the_chunk() {
    let mut q = ChunkQueue::<i32>::new(1, 2).unwrap();
    q.feed(&[1, 2, 3, 4]);
    assert!(q.accept(&vec![vec![], vec![]]));
    assert_eq!(q.backlog_len(), 2);
    assert_eq!(q.take_output(), Vec::<i32>::new());
}

#[test]
fn malformed_conversion_changes_nothing() {
    let mut q = ChunkQueue::<i32>::new(1, 2).unwrap();
    q.feed(&[1, 2]);
    // a row is missing
    assert!(!q.accept(&vec![vec![7]]));
    // the second row is shorter than the first
    assert!(!q.accept(&vec![vec![7, 8], vec![9]]));
    assert!(!q.accept(&vec![]));
    assert_eq!(q.backlog_len(), 2);
    assert_eq!(q.take_output(), Vec::<i32>::new());
    assert_eq!(q.chunk(), Some(vec![vec![1], vec![2]]));
}

#[test]
fn conversion_without_a_waiting_chunk_is_refused() {
    let mut q = ChunkQueue::<i32>::new(2, 1).unwrap();
    q.feed(&[1]);
    assert!(!q.accept(&vec![vec![5, 6]]));
    assert_eq!(q.backlog_len(), 1);
    assert_eq!(q.take_output(), Vec::<i32>::new());
}

#[test]
fn reset_drops_backlog_and_output() {
    let mut q = ChunkQueue::<i32>::new(1, 1).unwrap();
    q.feed(&[1, 2, 3]);
    assert!(q.accept(&vec![vec![9]]));
    q.reset();
    assert_eq!(q.backlog_len(), 0);
    assert_eq!(q.take_output(), Vec::<i32>::new());
    assert_eq!(q.chunk_frames(), 1);
}

fn chunks_of(pieces: &[&[i32]], frames: usize, channels: usize) -> (Vec<Vec<Vec<i32>>>, usize) {
    let mut q = ChunkQueue::<i32>::new(frames, channels).unwrap();
    let mut seen = Vec::new();
    for piece in pieces {
        q.feed(piece);
        while let Some(chunk) = q.chunk() {
            assert!(q.accept(&chunk));
            seen.push(chunk);
        }
    }
    (seen, q.backlog_len())
}

#[test]
fn chunks_do_not_depend_on_how_the_stream_arrives() {
    let stream: Vec<i32> = (0..103).collect();
    let whole = chunks_of(&[&stream], 5, 2);
    assert_eq!(whole.0.len(), 10);
    assert_eq!(whole.1, 3);
    let pieces = chunks_of(&[&stream[..7], &stream[7..8], &stream[8..64], &stream[64..]], 5, 2);
    assert_eq!(pieces, whole);
    let single: Vec<&[i32]> = stream.chunks(1).collect();
    assert_eq!(chunks_of(&single, 5, 2), whole);
}

#[test]
fn converter_that_copies_gives_the_stream_back() {
    let stream: Vec<i32> = (0..50).collect();
    let mut q = ChunkQueue::<i32>::new(4, 3).unwrap();
    let mut out = Vec::new();
    for piece in stream.chunks(7) {
        q.feed(piece);
        while let Some(chunk) = q.chunk() {
            assert!(q.accept(&chunk));
        }
        out.extend(q.take_output());
    }
    assert_eq!(out, stream[..48].to_vec());
    assert_eq!(q.backlog_len(), 2);
}

#[test]
fn tail_is_what_is_left_when_less_than_a_chunk_waits() {
    let mut q = ChunkQueue::<i32>::new(4, 2).unwrap();
    assert_eq!(q.tail(), None);
    q.feed(&[1, 2, 3, 4, 5]);
    // two whole frames and an odd sample
    assert_eq!(q.tail(), Some(vec![vec![1, 3], vec![2, 4]]));
    assert_eq!(q.backlog_len(), 5);
    assert!(q.accept_tail(&vec![vec![10, 30, 50], vec![20, 40, 60]]));
    assert_eq!(q.backlog_len(), 0);
    assert_eq!(q.output_len(), 6);
    assert_eq!(q.take_output(), vec![10, 20, 30, 40, 50, 60]);
    assert_eq!(q.tail(), None);
}

#[test]
fn full_chunks_go_before_the_tail() {
    let mut q = ChunkQueue::<i32>::new(2, 1).unwrap();
    q.feed(&[1, 2, 3]);
    assert_eq!(q.tail(), None);
    assert!(!q.accept_tail(&vec![vec![9]]));
    assert_eq!(q.backlog_len(), 3);
    assert!(q.accept(&vec![vec![7, 8]]));
    assert_eq!(q.tail(), Some(vec![vec![3]]));
}

#[test]
fn tail_that_is_not_converted_is_dropped_all_the_same() {
    let mut q = ChunkQueue::<i32>::new(4, 2).unwrap();
    q.feed(&[1, 2, 3]);
    assert!(!q.accept_tail(&vec![vec![9]]));
    assert_eq!(q.backlog_len(), 0);
    assert_eq!(q.take_output(), Vec::<i32>::new());
    // a single odd sample is a tail of no frames
    q.feed(&[5]);
    assert_eq!(q.tail(), Some(vec![vec![], vec![]]));
    assert!(q.accept_tail(&vec![vec![], vec![]]));
    assert_eq!(q.backlog_len(), 0);
}
