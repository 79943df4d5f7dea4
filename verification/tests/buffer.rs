//! The bounded audio ring buffer.

use picasound::util::audio::{AudioBuffer, BUFFER_FRAMES};

#[test]
fn overflow_keeps_most_recent_capacity() {
    // frame size 1, so the bounded capacity is BUFFER_FRAMES samples.
    let mut buf = AudioBuffer::new(10, 10);
    let cap = BUFFER_FRAMES;

    let ones: Vec<i32> = vec![1; cap];
    let twos: Vec<i32> = vec![2; cap];
    let threes: Vec<i32> = vec![3; cap];
    assert!(buf.push(&ones));
    assert!(buf.push(&twos));
    // This push exceeds twice the bounded capacity: the oldest samples go.
    assert!(buf.push(&threes));

    // A full-capacity window returns exactly the bounded capacity of the
    // most recent samples.
    let window = buf.frames(BUFFER_FRAMES);
    assert_eq!(window.len(), cap);
    assert!(window.iter().all(|&x| x == 3));
}

#[test]
fn oversized_chunk_is_rejected() {
    let mut buf = AudioBuffer::new(10, 10);
    let too_big: Vec<i32> = vec![7; BUFFER_FRAMES + 1];
    assert!(!buf.push(&too_big));
    assert_eq!(buf.frames(BUFFER_FRAMES).len(), 0);
}

#[test]
fn windows_take_the_tail() {
    let mut buf = AudioBuffer::new(30, 10);  // frame size 3
    let data: Vec<i32> = (0..9).collect();
    assert!(buf.push(&data));
    assert_eq!(buf.frames(1), vec![6, 7, 8]);
    assert_eq!(buf.exact(4), vec![5, 6, 7, 8]);
    assert_eq!(buf.exact(20).len(), 9);
}
