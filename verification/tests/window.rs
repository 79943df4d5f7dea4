//! Windowing behavior of the spectral engine.

use picasound::fixed::SCALE;
use picasound::util::spectrum::{hann, Window};

#[test]
fn hann_sanity_check() {
    let n = 32;
    let mut data: Vec<i32> = vec![SCALE as i32; n];
    Window::Hann.apply(&mut data);

    assert!(data[0] <= 6553, "first small");
    assert!(data[n - 1] <= 6553, "last small");
    assert!(data.iter().copied().any(|x| x == SCALE as i32), "a peak in 1");
    assert!(
        data.iter().copied().all(|x| 0 <= x && x <= SCALE as i32),
        "proper range"
    );
}

#[test]
fn hann_coefficients_vanish_at_the_edge() {
    // The coefficient at the window center is exactly 1.0 and the one at
    // the leading edge is exactly 0.
    assert_eq!(hann(16, 32), SCALE);
    assert_eq!(hann(0, 32), 0);
    // A quarter of the way in, the coefficient is close to 0.5.
    let quarter = hann(8, 32);
    assert!(32000 < quarter && quarter < 33500);
}
