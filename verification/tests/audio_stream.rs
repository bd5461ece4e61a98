use audio_visualizer::data_stream::audio_stream::{
    next_buffer_index, stereo_frames, AudioStream, TimeRing, BUFF_SIZE, FFT_SIZE, NUM_BUFFERS,
};
use audio_visualizer::signal_processing::Scope;

fn chunk(start: u32) -> Vec<u32> {
    (start..start + BUFF_SIZE as u32).collect()
}

#[test]
fn time_ring_starts_filled() {
    let ring = TimeRing::new(7u32);
    assert_eq!(ring.time_index(), 0);
    assert_eq!(ring.window(), vec![7u32; FFT_SIZE]);
}

#[test]
fn time_ring_push_shifts_window() {
    let mut ring = TimeRing::new(0u32);
    ring.push_chunk(&chunk(1));
    assert_eq!(ring.time_index(), BUFF_SIZE);
    let window = ring.window();
    assert_eq!(window.len(), FFT_SIZE);
    assert!(window[..FFT_SIZE - BUFF_SIZE].iter().all(|&v| v == 0));
    assert_eq!(&window[FFT_SIZE - BUFF_SIZE..], &chunk(1)[..]);
}

#[test]
fn time_ring_window_holds_latest_values_in_order() {
    let mut ring = TimeRing::new(0u32);
    for k in 0..6u32 {
        ring.push_chunk(&chunk(k * BUFF_SIZE as u32));
    }
    // six chunks of consecutive numbers: the window holds the last four
    let expected: Vec<u32> = (2 * BUFF_SIZE as u32..6 * BUFF_SIZE as u32).collect();
    assert_eq!(ring.window(), expected);
    assert_eq!(ring.time_index(), 2 * BUFF_SIZE);
}

#[test]
fn time_index_cycles_after_four_chunks() {
    let mut ring = TimeRing::new(0u8);
    for _ in 0..FFT_SIZE / BUFF_SIZE {
        ring.advance();
    }
    assert_eq!(ring.time_index(), 0);
}

#[test]
fn short_chunk_overwrites_only_its_length() {
    let mut ring = TimeRing::new(0u32);
    ring.write_chunk(&vec![5, 6, 7]);
    assert_eq!(ring.time_index(), 0);
    let window = ring.window();
    assert_eq!(&window[..4], &[5, 6, 7, 0]);
}

#[test]
fn long_chunk_is_cut_at_buffer_size() {
    let mut ring = TimeRing::new(0u32);
    let long: Vec<u32> = (1..=(BUFF_SIZE as u32 + 10)).collect();
    ring.write_chunk(&long);
    let window = ring.window();
    assert_eq!(window[BUFF_SIZE - 1], BUFF_SIZE as u32);
    assert_eq!(window[BUFF_SIZE], 0);
}

#[test]
fn stereo_frames_pairs_channels() {
    let data = vec![1, 2, 3, 4, 5, 6];
    assert_eq!(stereo_frames(&data), vec![(1, 2), (3, 4), (5, 6)]);
    let long: Vec<u32> = (0..1000).collect();
    let frames = stereo_frames(&long);
    assert_eq!(frames.len(), BUFF_SIZE);
    assert_eq!(frames[255], (510, 511));
}

#[test]
fn stream_starts_filled_and_unrendered() {
    let stream: AudioStream<u32> = AudioStream::with_fill(3);
    assert_eq!(stream.buffers.len(), NUM_BUFFERS);
    assert_eq!(stream.rendered, [false; NUM_BUFFERS]);
    assert_eq!(stream.current_buff, 0);
    assert_eq!(stream.current_sample, 0);
    for buffer in &stream.buffers {
        assert_eq!(buffer.data_points, Some(vec![3u32; BUFF_SIZE]));
        assert_eq!(buffer.scope, Scope { start: 0, end: BUFF_SIZE, size: BUFF_SIZE });
        assert_eq!(buffer.size, BUFF_SIZE);
    }
    let default_stream: AudioStream<u32> = AudioStream::default();
    assert_eq!(default_stream.buffers[5].data_points, Some(vec![0u32; BUFF_SIZE]));
}

#[test]
fn render_returns_packaged_samples_once() {
    let mut stream: AudioStream<u32> = AudioStream::with_fill(0);
    let scope = Scope::new(0, 5000);
    let dropped = stream.package_samples(chunk(100), scope);
    assert!(dropped);
    assert_eq!(stream.current_buff, 1);
    assert!(!stream.rendered[0]);
    assert_eq!(stream.buffers[0].scope, scope);
    assert_eq!(stream.take_for_render(0), Some(chunk(100)));
    assert!(stream.rendered[0]);
    assert_eq!(stream.take_for_render(0), None);
}

#[test]
fn package_over_rendered_buffer_reports_no_drop() {
    let mut stream: AudioStream<u32> = AudioStream::with_fill(0);
    for _ in 0..NUM_BUFFERS {
        stream.package_samples(chunk(0), Scope::new(0, 1));
    }
    assert_eq!(stream.current_buff, 0);
    assert!(stream.take_for_render(0).is_some());
    assert!(!stream.package_samples(chunk(1), Scope::new(0, 1)));
    assert!(stream.package_samples(chunk(2), Scope::new(0, 1)));
    assert_eq!(stream.buffers[1].data_points, Some(chunk(2)));
    assert_eq!(stream.buffers[2].data_points, Some(chunk(0)));
}

#[test]
fn next_buffer_index_wraps() {
    assert_eq!(next_buffer_index(0), 1);
    assert_eq!(next_buffer_index(NUM_BUFFERS - 1), 0);
}

#[test]
fn render_walk_takes_unrendered_buffers_then_stops() {
    let mut stream: AudioStream<u32> = AudioStream::with_fill(0);
    // every buffer starts unrendered: the walk takes buffer 0 and moves on
    let (next, taken) = stream.render_step(0);
    assert_eq!(next, 1);
    assert_eq!(taken, Some(vec![0u32; BUFF_SIZE]));
    // buffer 0 is now rendered: the walk stops there
    let (next, taken) = stream.render_step(0);
    assert_eq!(next, 0);
    assert_eq!(taken, None);
    // the walk wraps round the ring
    let (next, _) = stream.render_step(NUM_BUFFERS - 1);
    assert_eq!(next, 0);
}

#[test]
fn chunk_buffer_holds_only_the_chunk() {
    let (buffer, next) = audio_visualizer::data_stream::audio_stream::chunk_buffer(0u32, 256, &chunk(1));
    assert_eq!(buffer.len(), 2 * FFT_SIZE);
    assert_eq!(next, 512);
    assert_eq!(&buffer[256..512], &chunk(1)[..]);
    assert_eq!(&buffer[FFT_SIZE + 256..FFT_SIZE + 512], &chunk(1)[..]);
    assert!(buffer[..256].iter().all(|&v| v == 0));
    assert!(buffer[512..FFT_SIZE + 256].iter().all(|&v| v == 0));
    // the window at the new time index: zeros, then the chunk at its end
    let window = &buffer[next..next + FFT_SIZE];
    assert!(window[..FFT_SIZE - BUFF_SIZE].iter().all(|&v| v == 0));
    assert_eq!(&window[FFT_SIZE - BUFF_SIZE..], &chunk(1)[..]);
}

#[test]
fn chunk_buffer_wraps_time_index() {
    let (buffer, next) = audio_visualizer::data_stream::audio_stream::chunk_buffer(9u8, 768, &vec![1u8, 2]);
    assert_eq!(next, 0);
    assert_eq!(&buffer[768..771], &[1, 2, 9]);
    assert_eq!(&buffer[FFT_SIZE + 768..FFT_SIZE + 771], &[1, 2, 9]);
}
