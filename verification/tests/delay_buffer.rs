use granular_plugin::delay_buffer::DelayBuffer;
use granular_plugin::diffusion::shuffle_and_flip;
use ndarray::{arr1, Array1};

#[test]
fn test_new() {
    let delay_buffer = DelayBuffer::new(3, 0.0f32);
    assert_eq!(delay_buffer.capacity(), 3);
    assert_eq!(delay_buffer.contents().len(), 3);
    assert_eq!(delay_buffer.index(), 0);
}

#[test]
fn test_write() {
    let mut delay_buffer = DelayBuffer::new(5, 0.0f32);
    delay_buffer.write(1.0);
    delay_buffer.write(2.0);
    delay_buffer.write(3.0);
    delay_buffer.write(4.0);
    delay_buffer.write(5.0);
    assert_eq!(delay_buffer.contents(), vec![1.0, 2.0, 3.0, 4.0, 5.0])
}

#[test]
fn test_write_wrap() {
    let mut delay_buffer = DelayBuffer::new(5, 0.0f32);
    delay_buffer.write(1.0);
    delay_buffer.write(2.0);
    delay_buffer.write(3.0);
    delay_buffer.write(4.0);
    delay_buffer.write(5.0);
    delay_buffer.write(6.0);
    assert_eq!(delay_buffer.contents(), vec![6.0, 2.0, 3.0, 4.0, 5.0])
}

#[test]
fn test_read() {
    let mut delay_buffer = DelayBuffer::new(5, 0.0f32);
    delay_buffer.write(1.0);
    delay_buffer.write(2.0);
    delay_buffer.write(3.0);
    delay_buffer.write(4.0);
    delay_buffer.write(5.0);
    assert_eq!(delay_buffer.read(0), 5.0);
    assert_eq!(delay_buffer.read(1), 4.0);
    assert_eq!(delay_buffer.read(2), 3.0);
}

#[test]
fn delay_buffer_reads_back_every_delay() {
    let mut delay_buffer = DelayBuffer::new(4, 0i16);
    assert_eq!(delay_buffer.read(3), 0);
    for value in 1..=6 {
        delay_buffer.write(value);
        assert_eq!(delay_buffer.read(0), value);
    }
    assert_eq!(delay_buffer.index(), 2);
    let delayed: Vec<i16> = (0..4).map(|delay| delay_buffer.read(delay)).collect();
    assert_eq!(delayed, vec![6, 5, 4, 3]);
    let copy = delay_buffer.clone();
    assert_eq!(copy.contents(), vec![5, 6, 3, 4]);
    let mut single = DelayBuffer::new(1, 'a');
    single.write('b');
    assert_eq!(single.read(0), 'b');
    assert_eq!(single.index(), 0);
}

#[test]
fn shuffle_takes_every_channel_once() {
    for channels in [0usize, 1, 2, 8, 33] {
        let plan = shuffle_and_flip(channels);
        assert_eq!(plan.len(), channels);
        let mut taken: Vec<usize> = plan.iter().map(|entry| entry.0).collect();
        taken.sort();
        assert_eq!(taken, (0..channels).collect::<Vec<usize>>());
        assert!(plan.iter().all(|entry| entry.1 == 1 || entry.1 == -1));
    }
}

#[test]
fn shuffle_changes_the_order_and_the_polarities() {
    // Sixteen draws over 64 channels leave the order untouched, or flip no
    // channel, less than once in 10^80 runs.
    let in_order: Vec<usize> = (0..64).collect();
    let mut moved = false;
    let mut flipped = false;
    let mut kept = false;
    for _ in 0..16 {
        let plan = shuffle_and_flip(64);
        moved = moved || plan.iter().map(|entry| entry.0).collect::<Vec<usize>>() != in_order;
        flipped = flipped || plan.iter().any(|entry| entry.1 == -1);
        kept = kept || plan.iter().any(|entry| entry.1 == 1);
    }
    assert!(moved && flipped && kept);
}

#[test]
fn test_shuffle_flip() {
    let input: Array1<f32> = arr1(&[1.0, 0.5, 1.0, 0.25]);
    // One draw in sixteen flips no channel. It leaves the sum as it was, and
    // it may leave the order too, so it cannot tell the output from the
    // input; the next draw is taken then.
    let mut flipped = false;
    for _ in 0..64 {
        let plan = shuffle_and_flip(input.len());
        let output: Array1<f32> = plan
            .iter()
            .map(|(channel, polarity)| input[*channel] * *polarity as f32)
            .collect();
        let flips = plan.iter().any(|entry| entry.1 == -1);
        assert_eq!(flips, input.sum() != output.sum());
        if flips {
            assert_ne!(input, output);
            assert_ne!(input.sum(), output.sum());
            flipped = true;
            break;
        }
    }
    assert!(flipped);
}
