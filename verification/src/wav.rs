use vstd::prelude::*;
use vstd::bytes::{
    lemma_auto_spec_u16_to_from_le_bytes, lemma_auto_spec_u32_to_from_le_bytes,
    spec_u16_from_le_bytes, spec_u16_to_le_bytes, spec_u32_from_le_bytes, spec_u32_to_le_bytes,
    u16_to_le_bytes, u32_to_le_bytes,
};

verus! {

/// `"RIFF"`
pub open spec fn riff_tag() -> Seq<u8> {
    seq![82u8, 73u8, 70u8, 70u8]
}

/// `"WAVE"`
pub open spec fn wave_tag() -> Seq<u8> {
    seq![87u8, 65u8, 86u8, 69u8]
}

/// `"fmt "`
pub open spec fn fmt_tag() -> Seq<u8> {
    seq![102u8, 109u8, 116u8, 32u8]
}

/// `"data"`
pub open spec fn data_tag() -> Seq<u8> {
    seq![100u8, 97u8, 116u8, 97u8]
}

/// The data chunk size field for `n` samples: two bytes each, stored in a `u32`
/// (keeping the low 32 bits of the byte count).
pub open spec fn spec_data_size(n: nat) -> u32 {
    ((2 * n) % 0x1_0000_0000) as u32
}

/// Byte rate: sample rate times one channel times two bytes per sample.
pub open spec fn spec_byte_rate(sample_rate: u32) -> u32 {
    (sample_rate * 2) as u32
}

/// The 44-byte RIFF/WAVE header of a mono 16-bit PCM file whose data chunk
/// holds `data_size` bytes: RIFF size, fmt chunk of size 16 with format 1
/// (PCM), one channel, the sample rate, the byte rate, block align 2 and 16
/// bits per sample, then the data chunk's size.
pub open spec fn spec_wav_header(sample_rate: u32, data_size: u32) -> Seq<u8> {
    riff_tag() + spec_u32_to_le_bytes((36 + data_size) as u32) + wave_tag() + fmt_tag()
        + spec_u32_to_le_bytes(16) + spec_u16_to_le_bytes(1) + spec_u16_to_le_bytes(1)
        + spec_u32_to_le_bytes(sample_rate) + spec_u32_to_le_bytes(spec_byte_rate(sample_rate))
        + spec_u16_to_le_bytes(2) + spec_u16_to_le_bytes(16) + data_tag() + spec_u32_to_le_bytes(data_size)
}

/// Samples as consecutive little-endian two's-complement 16-bit integers.
pub open spec fn spec_pcm16_le(samples: Seq<i16>) -> Seq<u8>
    decreases samples.len(),
{
    if samples.len() == 0 {
        Seq::empty()
    } else {
        spec_pcm16_le(samples.drop_last()) + spec_u16_to_le_bytes(samples.last() as u16)
    }
}

/// The whole file: header, then the samples.
pub open spec fn spec_wav_bytes(samples: Seq<i16>, sample_rate: u32) -> Seq<u8> {
    spec_wav_header(sample_rate, spec_data_size(samples.len())) + spec_pcm16_le(samples)
}

/// The header's sizes fit their fields without overflow.
pub open spec fn wav_sizes_fit(num_samples: nat, sample_rate: u32) -> bool {
    &&& sample_rate * 2 <= u32::MAX
    &&& 36 + spec_data_size(num_samples) <= u32::MAX
    &&& 2 * num_samples <= usize::MAX
}

fn push_tag(out: &mut Vec<u8>, a: u8, b: u8, c: u8, d: u8)
    ensures
        final(out)@ == old(out)@ + seq![a, b, c, d],
{
    out.push(a);
    out.push(b);
    out.push(c);
    out.push(d);
    assert(final(out)@ =~= old(out)@ + seq![a, b, c, d]);
}

fn push_u32_le(out: &mut Vec<u8>, x: u32)
    ensures
        final(out)@ == old(out)@ + spec_u32_to_le_bytes(x),
{
    let mut bytes = u32_to_le_bytes(x);
    out.append(&mut bytes);
}

fn push_u16_le(out: &mut Vec<u8>, x: u16)
    ensures
        final(out)@ == old(out)@ + spec_u16_to_le_bytes(x),
{
    let mut bytes = u16_to_le_bytes(x);
    out.append(&mut bytes);
}

/// Build the full byte contents of a mono 16-bit PCM WAV file: RIFF header,
/// fmt chunk, data chunk, then each sample in little-endian order.
pub fn wav_bytes(samples: &[i16], sample_rate: u32) -> (out: Vec<u8>)
    requires
        wav_sizes_fit(samples@.len(), sample_rate),
    ensures
        out@ == spec_wav_bytes(samples@, sample_rate),
        out@.len() == 44 + 2 * samples@.len(),
        spec_u16_from_le_bytes(out@.subrange(20, 22)) == 1,
        spec_u16_from_le_bytes(out@.subrange(22, 24)) == 1,
        spec_u32_from_le_bytes(out@.subrange(24, 28)) == sample_rate,
        spec_u32_from_le_bytes(out@.subrange(28, 32)) == sample_rate * 1 * 2,
        spec_u16_from_le_bytes(out@.subrange(32, 34)) == 1 * 2,
        spec_u16_from_le_bytes(out@.subrange(34, 36)) == 16,
        spec_u32_from_le_bytes(out@.subrange(40, 44)) == (2 * samples@.len()) % 0x1_0000_0000,
        forall|i: int|
            0 <= i < samples@.len() ==> spec_u16_from_le_bytes(
                #[trigger] out@.subrange(44 + 2 * i, 46 + 2 * i),
            ) as i16 == samples@[i],
{
    let num_channels: u16 = 1;
    let bits_per_sample: u16 = 16;
    assert(num_channels as u32 * (bits_per_sample as u32 / 8) == 2);
    let byte_rate = sample_rate * num_channels as u32 * (bits_per_sample as u32 / 8);
    let block_align = num_channels * (bits_per_sample / 8);
    assert(bits_per_sample as usize / 8 == 2);
    let total_bytes: usize = samples.len() * (bits_per_sample as usize / 8);
    let data_size = (total_bytes as u64 % 0x1_0000_0000u64) as u32;
    let riff_size = 36 + data_size;

    let mut out: Vec<u8> = Vec::new();
    push_tag(&mut out, 82u8, 73u8, 70u8, 70u8);
    push_u32_le(&mut out, riff_size);
    push_tag(&mut out, 87u8, 65u8, 86u8, 69u8);

    push_tag(&mut out, 102u8, 109u8, 116u8, 32u8);
    push_u32_le(&mut out, 16);
    push_u16_le(&mut out, 1);
    push_u16_le(&mut out, num_channels);
    push_u32_le(&mut out, sample_rate);
    push_u32_le(&mut out, byte_rate);
    push_u16_le(&mut out, block_align);
    push_u16_le(&mut out, bits_per_sample);

    push_tag(&mut out, 100u8, 97u8, 116u8, 97u8);
    push_u32_le(&mut out, data_size);

    let ghost header = out@;
    assert(header == spec_wav_header(sample_rate, spec_data_size(samples@.len())));
    let len = samples.len();
    let mut i: usize = 0;
    while i < len
        invariant
            i <= len,
            len == samples@.len(),
            out@ == header + spec_pcm16_le(samples@.take(i as int)),
        decreases len - i,
    {
        let s = samples[i];
        push_u16_le(&mut out, #[verifier::truncate] (s as u16));
        assert(samples@.take(i + 1).drop_last() =~= samples@.take(i as int));
        i = i + 1;
    }
    assert(samples@.take(len as int) =~= samples@);
    proof {
        lemma_wav_layout(samples@, sample_rate);
    }
    out
}

/// The sample bytes are two per sample, sample `i` at bytes `2i` and `2i + 1`.
pub proof fn lemma_pcm16_layout(samples: Seq<i16>)
    ensures
        spec_pcm16_le(samples).len() == 2 * samples.len(),
        forall|i: int|
            0 <= i < samples.len() ==> #[trigger] spec_pcm16_le(samples).subrange(2 * i, 2 * i + 2)
                == spec_u16_to_le_bytes(samples[i] as u16),
    decreases samples.len(),
{
    lemma_auto_spec_u16_to_from_le_bytes();
    if samples.len() > 0 {
        let prev = samples.drop_last();
        lemma_pcm16_layout(prev);
        let all = spec_pcm16_le(samples);
        let last = spec_u16_to_le_bytes(samples.last() as u16);
        assert(all == spec_pcm16_le(prev) + last);
        assert forall|i: int| 0 <= i < samples.len() implies #[trigger] all.subrange(2 * i, 2 * i + 2)
            == spec_u16_to_le_bytes(samples[i] as u16) by {
            if i < prev.len() {
                assert(all.subrange(2 * i, 2 * i + 2) =~= spec_pcm16_le(prev).subrange(2 * i, 2 * i + 2));
                assert(prev[i] == samples[i]);
            } else {
                assert(all.subrange(2 * i, 2 * i + 2) =~= last);
            }
        }
    }
}

/// Reading a sample's two bytes back as a little-endian `i16` gives the sample.
pub proof fn lemma_i16_le_round_trip(x: i16)
    ensures
        #[verifier::truncate] (spec_u16_from_le_bytes(
            spec_u16_to_le_bytes(#[verifier::truncate] (x as u16)),
        ) as i16) == x,
{
    lemma_auto_spec_u16_to_from_le_bytes();
    let bits: u16 = #[verifier::truncate] (x as u16);
    assert(spec_u16_to_le_bytes(bits).len() == 2);
    assert((#[verifier::truncate] ((#[verifier::truncate] (x as u16)) as i16)) == x) by (bit_vector);
}

/// The byte layout of a WAV file built from `samples`, field by field, as
/// the format's table gives it: each field, read back in little-endian
/// order, holds its value, and each sample stands at its offset after the
/// 44-byte header. The values are written out here as the format defines
/// them: one channel, two bytes per sample, so the byte rate is the sample
/// rate times two and the block align is two.
pub proof fn lemma_wav_layout(samples: Seq<i16>, sample_rate: u32)
    ensures
        ({
            let bytes = spec_wav_bytes(samples, sample_rate);
            let data_bytes = (2 * samples.len()) % 0x1_0000_0000;
            &&& bytes.len() == 44 + 2 * samples.len()
            &&& bytes.subrange(0, 4) == seq![82u8, 73u8, 70u8, 70u8]
            &&& 36 + data_bytes <= u32::MAX ==> spec_u32_from_le_bytes(bytes.subrange(4, 8)) == 36
                + data_bytes
            &&& bytes.subrange(8, 12) == seq![87u8, 65u8, 86u8, 69u8]
            &&& bytes.subrange(12, 16) == seq![102u8, 109u8, 116u8, 32u8]
            &&& spec_u32_from_le_bytes(bytes.subrange(16, 20)) == 16
            &&& spec_u16_from_le_bytes(bytes.subrange(20, 22)) == 1
            &&& spec_u16_from_le_bytes(bytes.subrange(22, 24)) == 1
            &&& spec_u32_from_le_bytes(bytes.subrange(24, 28)) == sample_rate
            &&& sample_rate * 2 <= u32::MAX ==> spec_u32_from_le_bytes(bytes.subrange(28, 32))
                == sample_rate * 1 * 2
            &&& spec_u16_from_le_bytes(bytes.subrange(32, 34)) == 1 * 2
            &&& spec_u16_from_le_bytes(bytes.subrange(34, 36)) == 16
            &&& bytes.subrange(36, 40) == seq![100u8, 97u8, 116u8, 97u8]
            &&& spec_u32_from_le_bytes(bytes.subrange(40, 44)) == data_bytes
            &&& forall|i: int|
                0 <= i < samples.len() ==> spec_u16_from_le_bytes(
                    #[trigger] bytes.subrange(44 + 2 * i, 46 + 2 * i),
                ) as i16 == samples[i]
        }),
{
    lemma_auto_spec_u16_to_from_le_bytes();
    lemma_auto_spec_u32_to_from_le_bytes();
    lemma_pcm16_layout(samples);
    let data_size = spec_data_size(samples.len());
    let header = spec_wav_header(sample_rate, data_size);
    let pcm = spec_pcm16_le(samples);
    let bytes = spec_wav_bytes(samples, sample_rate);
    assert(header.len() == 44);
    assert(bytes.subrange(0, 4) =~= riff_tag());
    assert(bytes.subrange(4, 8) =~= spec_u32_to_le_bytes((36 + data_size) as u32));
    assert(bytes.subrange(8, 12) =~= wave_tag());
    assert(bytes.subrange(12, 16) =~= fmt_tag());
    assert(bytes.subrange(16, 20) =~= spec_u32_to_le_bytes(16));
    assert(bytes.subrange(20, 22) =~= spec_u16_to_le_bytes(1));
    assert(bytes.subrange(22, 24) =~= spec_u16_to_le_bytes(1));
    assert(bytes.subrange(24, 28) =~= spec_u32_to_le_bytes(sample_rate));
    assert(bytes.subrange(28, 32) =~= spec_u32_to_le_bytes(spec_byte_rate(sample_rate)));
    assert(bytes.subrange(32, 34) =~= spec_u16_to_le_bytes(2));
    assert(bytes.subrange(34, 36) =~= spec_u16_to_le_bytes(16));
    assert(bytes.subrange(36, 40) =~= data_tag());
    assert(bytes.subrange(40, 44) =~= spec_u32_to_le_bytes(data_size));
    assert forall|i: int| 0 <= i < samples.len() implies spec_u16_from_le_bytes(
        #[trigger] bytes.subrange(44 + 2 * i, 46 + 2 * i),
    ) as i16 == samples[i] by {
        assert(bytes.subrange(44 + 2 * i, 46 + 2 * i) =~= pcm.subrange(2 * i, 2 * i + 2));
        lemma_i16_le_round_trip(samples[i]);
    }
}

/// While the byte count of the samples fits in 32 bits, the data chunk size
/// field is exactly two bytes per sample, the file is 44 bytes longer than
/// its data, and the RIFF size field is the file's length minus 8.
pub proof fn lemma_wav_size_fields(samples: Seq<i16>, sample_rate: u32)
    requires
        2 * samples.len() < 0x1_0000_0000,
    ensures
        spec_data_size(samples.len()) == 2 * samples.len(),
        spec_wav_bytes(samples, sample_rate).len() == 44 + spec_data_size(samples.len()),
        36 + spec_data_size(samples.len()) == spec_wav_bytes(samples, sample_rate).len() - 8,
{
    lemma_wav_layout(samples, sample_rate);
}

} // verus!
