use reverb::{mixed_length, Waveform};

#[test]
fn mix_and_normalize_pads_shorter_tracks() {
    let a = vec![0.5f32; 10];
    let b = vec![0.5f32; 5];
    let mixed_len = mixed_length(&[a.len(), b.len()]);
    assert_eq!(mixed_len, 10);
}

#[test]
fn mixed_length_is_the_longest_track() {
    assert_eq!(mixed_length(&[]), 0);
    assert_eq!(mixed_length(&[0]), 0);
    assert_eq!(mixed_length(&[3, 9, 4]), 9);
    assert_eq!(mixed_length(&[7, 7]), 7);
    assert_eq!(mixed_length(&[1, 2, 3, 100]), 100);
}

#[test]
fn waveforms_compare_by_variant() {
    assert_eq!(Waveform::Sine, Waveform::Sine);
    assert_ne!(Waveform::Square, Waveform::Triangle);
    let w = Waveform::Sawtooth;
    let copy = w;
    assert_eq!(w, copy);
}
