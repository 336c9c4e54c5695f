use audio_reactive_led_strip::layout::{
    band_range, correlate_1d, correlate_1d_single, fill_bars, half_strip, mirror_concat, mirror_extend,
    nonnegative_half, resample, scroll_rows, tail_from, Channels,
};

fn dot(w: &Vec<f64>, k: &Vec<f64>) -> f64 {
    w.iter().zip(k.iter()).map(|(a, b)| a * b).sum()
}

#[test]
fn test_correlate_1d() {
    let weights = vec![1., 2., 3., 4.];
    let input = vec![
        vec![0., 1., 2., 3., 4.],
        vec![5., 6., 7., 8., 9.],
        vec![10., 11., 12., 13., 14.],
        vec![15., 16., 17., 18., 19.],
        vec![20., 21., 22., 23., 24.],
    ];
    let expected_output = vec![
        vec![5., 11., 20., 30., 36.],
        vec![55., 61., 70., 80., 86.],
        vec![105., 111., 120., 130., 136.],
        vec![155., 161., 170., 180., 186.],
        vec![205., 211., 220., 230., 236.],
    ];
    assert_eq!(correlate_1d(&input, &weights, dot), expected_output);
}

#[test]
fn mirror_padding_even_and_odd_kernels() {
    let a = vec![0, 1, 2, 3, 4];
    assert_eq!(mirror_extend(&a, 4), vec![1, 0, 0, 1, 2, 3, 4, 4]);
    assert_eq!(mirror_extend(&a, 3), vec![0, 0, 1, 2, 3, 4, 4]);
    assert_eq!(mirror_extend(&a, 1), a);
    assert_eq!(mirror_extend(&a, 5), vec![1, 0, 0, 1, 2, 3, 4, 4, 3]);
}

#[test]
fn correlation_keeps_length_for_every_kernel_length() {
    let a: Vec<f64> = (0..7).map(|i| i as f64 * 1.5).collect();
    for k in 1..=7 {
        let kern = vec![1.0; k];
        assert_eq!(correlate_1d_single(&a, &kern, dot).len(), a.len());
    }
    let ident = vec![0.0, 1.0, 0.0];
    assert_eq!(correlate_1d_single(&a, &ident, dot), a);
}

#[test]
fn mirror_concat_even_and_odd_strips() {
    let half = vec![1, 2, 3];
    assert_eq!(mirror_concat(&half, 0), vec![3, 2, 1, 1, 2, 3]);
    assert_eq!(mirror_concat(&half, 1), vec![3, 2, 1, 2, 3]);
    let rows = vec![9, 8, 7, 1, 2, 3];
    let upper = tail_from(&rows, rows.len() / 2);
    assert_eq!(upper, vec![1, 2, 3]);
}

#[test]
fn three_bands() {
    assert_eq!(band_range(16, 0), (0, 5));
    assert_eq!(band_range(16, 1), (5, 10));
    assert_eq!(band_range(16, 2), (10, 16));
    assert_eq!(band_range(24, 2), (16, 24));
    assert_eq!(band_range(2, 0), (0, 0));
}

#[test]
fn bars_fill_leading_rows() {
    let bars = fill_bars(4, Channels { r: 0, g: 2, b: 9 }, 255.0, 0.0);
    assert_eq!(bars.len(), 4);
    let r: Vec<f64> = bars.iter().map(|c| c.r).collect();
    let g: Vec<f64> = bars.iter().map(|c| c.g).collect();
    let b: Vec<f64> = bars.iter().map(|c| c.b).collect();
    assert_eq!(r, vec![0.0, 0.0, 0.0, 0.0]);
    assert_eq!(g, vec![255.0, 255.0, 0.0, 0.0]);
    assert_eq!(b, vec![255.0; 4]);
}

#[test]
fn scroll_moves_rows_outward_with_decay() {
    let rows = vec![100.0, 50.0, 10.0, 4.0];
    let out = scroll_rows(&rows, |x: f64| x * 0.98);
    assert_eq!(out, vec![100.0, 98.0, 49.0, 9.8]);
    assert!(scroll_rows(&Vec::<f64>::new(), |x: f64| x).is_empty());
}

#[test]
fn resample_nearest() {
    let src = vec![1, 2, 3, 4];
    assert_eq!(resample(&src, 8), vec![1, 1, 2, 2, 3, 3, 4, 4]);
    assert_eq!(resample(&src, 2), vec![1, 3]);
    assert_eq!(resample(&src, 0), Vec::<i32>::new());
}

#[test]
fn spectrum_half_keeps_nyquist() {
    let s: Vec<u32> = (0..16).collect();
    assert_eq!(nonnegative_half(&s), (0..9).collect::<Vec<u32>>());
    let s: Vec<u32> = (0..5).collect();
    assert_eq!(nonnegative_half(&s), vec![0, 1, 2]);
    assert!(nonnegative_half(&Vec::<u32>::new()).is_empty());
}

#[test]
fn half_strip_rebuilds_every_length() {
    assert_eq!(half_strip(255), (127, 1));
    assert_eq!(half_strip(4), (2, 0));
    for n in 0..20usize {
        let rows: Vec<usize> = (0..n).collect();
        let (start, skip) = half_strip(n);
        let half = tail_from(&rows, start);
        assert_eq!(mirror_concat(&half, skip).len(), n);
    }
}

#[test]
fn mirrored_strips_are_symmetric() {
    for len in 0..6usize {
        let half: Vec<usize> = (0..len).map(|i| i * 10 + 1).collect();
        for skip in 0..=len.min(1) {
            let full = mirror_concat(&half, skip);
            let rev: Vec<usize> = full.iter().rev().copied().collect();
            assert_eq!(full, rev);
        }
    }
}
