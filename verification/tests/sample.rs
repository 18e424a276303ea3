use grid_sequencer::effects::{Effect, Mute};
use grid_sequencer::sample::{PlayStyle, Sample};
use grid_sequencer::stream::{Stream, StreamErr};
use grid_sequencer::track::Track;

#[test]
fn test_play_loop_buffer_smaller_than_sample() {
    let stream = Stream::from_samples(vec![0.0, 0.1, 0.2, 0.3, 0.4, 0.5, 0.6, 0.7, 0.8], 1);
    let mut sample = Sample::new("foo".to_owned(), stream);
    sample.set_buffer_size(5);

    let buffer = sample.play().unwrap();
    assert_eq!(buffer.samples, vec![0.0, 0.1, 0.2, 0.3, 0.4]);

    let buffer = sample.play().unwrap();
    assert_eq!(buffer.samples, vec![0.5, 0.6, 0.7, 0.8, 0.0]);

    let buffer = sample.play().unwrap();
    assert_eq!(buffer.samples, vec![0.1, 0.2, 0.3, 0.4, 0.5]);
}

#[test]
fn test_play_loop_buffer_larger_than_sample() {
    let stream = Stream::from_samples(vec![0.0, 0.1, 0.2, 0.3, 0.4], 1);
    let mut sample = Sample::new("foo".to_owned(), stream);
    sample.set_buffer_size(8);

    let buffer = sample.play().unwrap();
    assert_eq!(buffer.samples, vec![0.0, 0.1, 0.2, 0.3, 0.4, 0.0, 0.1, 0.2]);

    let buffer = sample.play().unwrap();
    assert_eq!(buffer.samples, vec![0.3, 0.4, 0.0, 0.1, 0.2, 0.3, 0.4, 0.0]);
}

#[test]
fn test_play_oneshot() {
    let stream = Stream::from_samples(vec![0.0, 0.1, 0.2, 0.3, 0.4], 1);
    let mut sample = Sample::new("foo".to_owned(), stream);
    sample.set_buffer_size(8);
    sample.play_style = PlayStyle::OneShot;

    let buffer = sample.play().unwrap();
    assert_eq!(buffer.samples, vec![0.0, 0.1, 0.2, 0.3, 0.4, 0.0, 0.0, 0.0]);

    let buffer = sample.play().unwrap();
    assert_eq!(buffer.samples, vec![0.0, 0.0, 0.0, 0.0, 0.0, 0.0, 0.0, 0.0]);
}

#[test]
fn test_mute() {
    let mut mute = Mute::new();
    let input = Stream::from_samples(vec![0.1, 0.2, 0.3, 0.4], 1);
    let output = mute.process(&input).unwrap();
    assert_eq!(output.samples, vec![0.0, 0.0, 0.0, 0.0]);
}

#[test]
fn loop_position_past_the_end_is_an_error() {
    let stream = Stream::from_samples(vec![1u8, 2, 3], 1);
    let mut sample = Sample::new("bar".to_owned(), stream);
    sample.set_buffer_size(2);
    sample.position = 3;
    assert_eq!(sample.play().err(), Some(StreamErr::OutOfBounds));
    assert_eq!(sample.position, 3);
    assert_eq!(sample.buffer.samples, vec![0, 0]);
}

#[test]
fn loop_of_one_point_repeats_it() {
    let stream = Stream::from_samples(vec![7i16], 2);
    let mut sample = Sample::new("one".to_owned(), stream);
    sample.set_buffer_size(3);
    assert_eq!(sample.buffer.channels, 2);
    assert_eq!(sample.play().unwrap().samples, vec![7, 7, 7]);
    assert_eq!(sample.position, 0);
}

#[test]
fn empty_buffer_plays_nothing() {
    let stream = Stream::from_samples(vec![1u32, 2], 1);
    let mut sample = Sample::new("none".to_owned(), stream);
    sample.position = 9;
    assert_eq!(sample.play().unwrap().samples, Vec::<u32>::new());
    assert_eq!(sample.position, 9);
}

#[test]
fn one_shot_stops_after_the_last_point() {
    let stream = Stream::from_samples(vec![5u8, 6, 7], 1);
    let mut sample = Sample::new("once".to_owned(), stream);
    sample.play_style = PlayStyle::OneShot;
    sample.set_buffer_size(2);
    assert_eq!(sample.play().unwrap().samples, vec![5, 6]);
    assert_eq!(sample.position, 2);
    assert_eq!(sample.play().unwrap().samples, vec![7, 0]);
    assert_eq!(sample.position, 3);
}

#[test]
fn set_buffer_size_cuts_and_fills() {
    let stream = Stream::from_samples(vec![1i32, 2, 3, 4], 1);
    let mut sample = Sample::new("size".to_owned(), stream);
    sample.set_buffer_size(4);
    sample.play().unwrap();
    sample.set_buffer_size(2);
    assert_eq!(sample.buffer.samples, vec![1, 2]);
    sample.set_buffer_size(3);
    assert_eq!(sample.buffer.samples, vec![1, 2, 0]);
}

#[test]
fn stream_reads_and_refuses() {
    let stream = Stream::from_samples(vec![0.5f32, -0.5], 2);
    assert_eq!(stream.len(), 2);
    assert_eq!(stream.get_sample(1), Ok(-0.5));
    assert_eq!(stream.get_sample(2), Err(StreamErr::OutOfBounds));
    let empty: Stream<f32> = Stream::empty(3, 2);
    assert_eq!(empty.samples, vec![0.0, 0.0, 0.0]);
    assert_eq!(empty.channels, 2);
}

#[test]
fn track_copies_its_sample() {
    let stream = Stream::from_samples(vec![0.25f32, 0.5, 0.75], 1);
    let sample = Sample::new("t".to_owned(), stream);
    let mut track = Track::new(1);
    track.add_sample(sample);
    track.set_position((3, 4));
    track.set_buffer_size(4);
    assert_eq!(track.position, (3, 4));
    assert_eq!(track.play().unwrap().samples, vec![0.25, 0.5, 0.75, 0.25]);
    assert_eq!(track.play().unwrap().samples, vec![0.5, 0.75, 0.25, 0.5]);
}

#[test]
fn track_without_sample_is_silent() {
    let mut track: Track<f32> = Track::new(2);
    track.set_buffer_size(3);
    assert_eq!(track.play().unwrap().samples, vec![0.0, 0.0, 0.0]);
    assert_eq!(track.buffer.channels, 2);
}

#[test]
fn track_passes_on_the_sample_error() {
    let stream = Stream::from_samples(vec![1u8], 1);
    let mut sample = Sample::new("e".to_owned(), stream);
    sample.position = 4;
    let mut track = Track::new(1);
    track.add_sample(sample);
    track.set_buffer_size(2);
    assert_eq!(track.play().err(), Some(StreamErr::OutOfBounds));
    assert_eq!(track.buffer.samples, vec![0, 0]);
}

#[test]
fn resizing_a_track_keeps_the_sample_buffer_prefix() {
    let stream = Stream::from_samples(vec![0.5f32, 0.25], 1);
    let mut sample = Sample::new("baz".to_owned(), stream);
    sample.set_buffer_size(2);
    sample.buffer.samples = vec![1.0, 2.0];
    let mut track: Track<f32> = Track::new(1);
    track.add_sample(sample);
    track.set_buffer_size(4);
    assert_eq!(track.buffer.samples, vec![0.0; 4]);
    assert_eq!(track.sample.as_ref().unwrap().buffer.samples, vec![1.0, 2.0, 0.0, 0.0]);
    track.set_buffer_size(1);
    assert_eq!(track.sample.as_ref().unwrap().buffer.samples, vec![1.0]);
}
