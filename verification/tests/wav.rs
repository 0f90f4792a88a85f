use reverb::wav_bytes;

#[test]
fn header_has_riff_wave_fmt_and_data() {
    let samples = vec![0i16; 100];
    let bytes = wav_bytes(&samples, 44100);
    assert_eq!(&bytes[0..4], b"RIFF");
    assert_eq!(&bytes[8..12], b"WAVE");
    assert_eq!(&bytes[12..16], b"fmt ");
    assert_eq!(&bytes[36..40], b"data");
}

#[test]
fn data_chunk_length_matches_sample_count_and_bit_depth() {
    let samples = vec![0i16; 44100];
    let bytes = wav_bytes(&samples, 44100);
    let data_size = u32::from_le_bytes(bytes[40..44].try_into().unwrap());
    assert_eq!(data_size, 44100 * 2); // 16-bit = 2 bytes per sample
    assert_eq!(bytes.len(), 44 + data_size as usize);
}

#[test]
fn bits_per_sample_field_is_16() {
    let samples = vec![0i16; 10];
    let bytes = wav_bytes(&samples, 44100);
    let bits = u16::from_le_bytes(bytes[34..36].try_into().unwrap());
    assert_eq!(bits, 16);
}

#[test]
fn every_header_field_has_its_value() {
    let samples = vec![1i16, -1, 32767, -32768, 0x1234];
    let bytes = wav_bytes(&samples, 48000);
    let u32_at = |i: usize| u32::from_le_bytes(bytes[i..i + 4].try_into().unwrap());
    let u16_at = |i: usize| u16::from_le_bytes(bytes[i..i + 2].try_into().unwrap());
    assert_eq!(bytes.len(), 44 + 10);
    assert_eq!(u32_at(4), 36 + 10);
    assert_eq!(u32_at(4) as usize, bytes.len() - 8);
    assert_eq!(u32_at(16), 16);
    assert_eq!(u16_at(20), 1);
    assert_eq!(u16_at(22), 1);
    assert_eq!(u32_at(24), 48000);
    assert_eq!(u32_at(28), 96000);
    assert_eq!(u16_at(32), 2);
    assert_eq!(u16_at(34), 16);
    assert_eq!(u32_at(40), 10);
}

#[test]
fn samples_are_little_endian_twos_complement() {
    let samples = vec![1i16, -1, 32767, -32768, 0x1234];
    let bytes = wav_bytes(&samples, 8000);
    assert_eq!(
        &bytes[44..],
        &[0x01, 0x00, 0xff, 0xff, 0xff, 0x7f, 0x00, 0x80, 0x34, 0x12]
    );
    for (i, s) in samples.iter().enumerate() {
        let back = i16::from_le_bytes(bytes[44 + 2 * i..46 + 2 * i].try_into().unwrap());
        assert_eq!(back, *s);
    }
}

#[test]
fn empty_buffer_is_header_only() {
    let bytes = wav_bytes(&[], 44100);
    assert_eq!(bytes.len(), 44);
    assert_eq!(u32::from_le_bytes(bytes[4..8].try_into().unwrap()), 36);
    assert_eq!(u32::from_le_bytes(bytes[40..44].try_into().unwrap()), 0);
}
