use frequalizer::audiovisual::sample_accumulator::SampleAccumulator;

fn ramp(from: usize, count: usize) -> Vec<f32> {
    (from..from + count).map(|i| i as f32).collect()
}

#[test]
fn five_thousand_samples_drain_two_chunks() {
    let mut acc: SampleAccumulator<f32> = SampleAccumulator::new(2048);
    let chunks = acc.ingest(ramp(0, 5000));
    assert_eq!(chunks.len(), 2);
    assert_eq!(acc.pending_len(), 904);
    assert_eq!(chunks[0].len(), 2048);
    assert_eq!(chunks[1].len(), 2048);
    assert_eq!(chunks[0][0], 0.0);
    assert_eq!(chunks[0][2047], 2047.0);
    assert_eq!(chunks[1][0], 2048.0);
    assert_eq!(chunks[1][2047], 4095.0);
}

#[test]
fn empty_input_releases_nothing() {
    let mut acc: SampleAccumulator<f32> = SampleAccumulator::new(2048);
    let chunks = acc.ingest(Vec::new());
    assert!(chunks.is_empty());
    assert_eq!(acc.pending_len(), 0);
}

#[test]
fn leftover_carries_over_to_the_next_call() {
    let mut acc: SampleAccumulator<f32> = SampleAccumulator::new(2048);
    assert!(acc.ingest(ramp(0, 2000)).is_empty());
    assert_eq!(acc.pending_len(), 2000);
    let chunks = acc.ingest(ramp(2000, 100));
    assert_eq!(chunks.len(), 1);
    assert_eq!(chunks[0], ramp(0, 2048));
    assert_eq!(acc.pending_len(), 52);
    let chunks = acc.ingest(ramp(2100, 1996));
    assert_eq!(chunks.len(), 1);
    assert_eq!(chunks[0], ramp(2048, 2048));
    assert_eq!(acc.pending_len(), 0);
}

#[test]
fn exactly_one_chunk_leaves_nothing_pending() {
    let mut acc: SampleAccumulator<u8> = SampleAccumulator::new(4);
    let chunks = acc.ingest(vec![1, 2, 3, 4]);
    assert_eq!(chunks, vec![vec![1, 2, 3, 4]]);
    assert_eq!(acc.pending_len(), 0);
}

#[test]
fn many_chunks_come_out_in_stream_order() {
    let mut acc: SampleAccumulator<u8> = SampleAccumulator::new(3);
    let chunks = acc.ingest(vec![1, 2, 3, 4, 5, 6, 7, 8, 9, 10, 11]);
    assert_eq!(chunks, vec![vec![1, 2, 3], vec![4, 5, 6], vec![7, 8, 9]]);
    assert_eq!(acc.pending_len(), 2);
    assert_eq!(acc.chunk_size(), 3);
}

#[test]
fn pending_is_always_shorter_than_a_chunk_after_ingest() {
    let mut acc: SampleAccumulator<u8> = SampleAccumulator::new(5);
    let mut total = 0usize;
    let mut released = 0usize;
    for step in 0..40usize {
        let count = (step * 7) % 13;
        total += count;
        released += acc.ingest(vec![0u8; count]).len();
        assert!(acc.pending_len() < 5);
        assert_eq!(released * 5 + acc.pending_len(), total);
    }
}

#[test]
fn take_chunk_releases_one_chunk_at_a_time() {
    let mut acc: SampleAccumulator<u8> = SampleAccumulator::new(2);
    acc.push_samples(vec![9, 8, 7, 6, 5]);
    assert_eq!(acc.pending_len(), 5);
    assert_eq!(acc.take_chunk(), Some(vec![9, 8]));
    assert_eq!(acc.take_chunk(), Some(vec![7, 6]));
    assert_eq!(acc.take_chunk(), None);
    assert_eq!(acc.pending_len(), 1);
}
