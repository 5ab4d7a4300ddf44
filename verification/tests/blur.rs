//! The kernel of the backdrop blur.

use bacak_compositor::blur::{kernel_weights, tap_step, REACH};
use bacak_compositor::wm::PX;

#[test]
fn gaussian_weights_sum_to_one() {
    // Keep the kernel normalised, else the blur darkens/brightens.
    let w = [
        0.227027, 0.194595, 0.194595, 0.121622, 0.121622, 0.054054, 0.054054, 0.016216, 0.016216,
    ];
    let kernel: Vec<f64> = kernel_weights().iter().map(|v| *v as f64 / 1e6).collect();
    assert_eq!(kernel.len(), w.len());
    for (a, b) in kernel.iter().zip(w.iter()) {
        assert!((a - b).abs() < 1e-9, "{a} is not {b}");
    }
    let sum: f64 = kernel.iter().sum();
    assert!((sum - 1.0).abs() < 1e-3, "weights sum to {sum}, expected 1.0");
}

#[test]
fn weights_fall_off_on_both_sides_alike() {
    let k = kernel_weights();
    for i in 0..4 {
        assert_eq!(k[2 * i + 1], k[2 * i + 2]);
        assert!(k[2 * i + 1] < k[2 * i]);
    }
}

#[test]
fn taps_are_spread_over_the_radius() {
    // 24 px: the outermost of four taps is 24 px out, in 1024ths of a pixel.
    assert_eq!(REACH * tap_step(24 * PX), 24 * 1024);
    // Never closer than half a pixel.
    assert_eq!(tap_step(0), 512);
    assert_eq!(tap_step(-PX), 512);
}
