use voice_segmenter::energy::compute_rms;

#[test]
fn rms_of_empty_block_is_zero() {
    assert_eq!(compute_rms(&[]), 0);
}

#[test]
fn rms_of_constant_block_is_its_amplitude() {
    assert_eq!(compute_rms(&[300; 10]), 300);
    assert_eq!(compute_rms(&[1000, -1000, 1000, -1000]), 1000);
}

#[test]
fn rms_is_rounded_down() {
    // sqrt((9 + 16) / 2) = 3.53...
    assert_eq!(compute_rms(&[3, 4]), 3);
    // sqrt(400 / 8) = 7.07...
    assert_eq!(compute_rms(&[0, 0, 10, 10, 10, 10, 0, 0]), 7);
}

#[test]
fn rms_of_extreme_samples() {
    assert_eq!(compute_rms(&[-32768]), 32768);
    assert_eq!(compute_rms(&[i16::MIN; 1000]), 32768);
    assert_eq!(compute_rms(&[i16::MAX; 3]), 32767);
}

#[test]
fn rms_is_never_negative_and_matches_float() {
    let block: Vec<i16> = (0..500).map(|i| ((i * 37) % 2000 - 1000) as i16).collect();
    let exact = (block.iter().map(|&s| (s as f64) * (s as f64)).sum::<f64>() / block.len() as f64).sqrt();
    assert_eq!(compute_rms(&block), exact.floor() as u32);
}
