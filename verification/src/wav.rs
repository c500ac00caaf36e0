//! Bit-exact WAV/RIFF container assembly for offline rendering: a 44-byte
//! header followed by the little-endian signed 16-bit mono samples.

use vstd::prelude::*;

verus! {

/// The four bytes of `v` in little-endian order.
pub open spec fn le32(v: int) -> Seq<u8> {
    seq![
        (v % 256) as u8,
        (v / 256 % 256) as u8,
        (v / 65536 % 256) as u8,
        (v / 16777216 % 256) as u8,
    ]
}

/// The two bytes of `v` in little-endian order.
pub open spec fn le16(v: int) -> Seq<u8> {
    seq![(v % 256) as u8, (v / 256 % 256) as u8]
}

/// A signed 16-bit sample as its two's-complement little-endian bytes.
pub open spec fn sample_le(s: i16) -> Seq<u8> {
    le16(
        if s < 0 {
            s + 65536
        } else {
            s as int
        },
    )
}

/// Every sample in order, two bytes each.
pub open spec fn samples_le(samples: Seq<i16>) -> Seq<u8>
    decreases samples.len(),
{
    if samples.len() == 0 {
        Seq::empty()
    } else {
        sample_le(samples[0]) + samples_le(samples.drop_first())
    }
}

/// The sample block is two bytes per sample.
pub proof fn lemma_samples_le_len(samples: Seq<i16>)
    ensures
        samples_le(samples).len() == 2 * samples.len(),
    decreases samples.len(),
{
    if samples.len() > 0 {
        lemma_samples_le_len(samples.drop_first());
    }
}

/// Appending one sample appends exactly its two bytes.
pub proof fn lemma_samples_le_snoc(samples: Seq<i16>, s: i16)
    ensures
        samples_le(samples.push(s)) == samples_le(samples) + sample_le(s),
    decreases samples.len(),
{
    if samples.len() == 0 {
        assert(samples.push(s)[0] == s);
        assert(samples.push(s).drop_first() =~= Seq::<i16>::empty());
        assert(samples_le(Seq::<i16>::empty()) == Seq::<u8>::empty());
        assert(samples_le(samples.push(s)) == sample_le(s) + samples_le(
            samples.push(s).drop_first(),
        ));
        assert(samples_le(samples.push(s)) =~= samples_le(samples) + sample_le(s));
    } else {
        assert(samples.push(s)[0] == samples[0]);
        assert(samples.push(s).drop_first() =~= samples.drop_first().push(s));
        lemma_samples_le_snoc(samples.drop_first(), s);
        assert(samples_le(samples.push(s)) == sample_le(samples[0]) + samples_le(
            samples.push(s).drop_first(),
        ));
        assert(samples_le(samples.push(s).drop_first()) == samples_le(samples.drop_first())
            + sample_le(s));
        assert(samples_le(samples) == sample_le(samples[0]) + samples_le(samples.drop_first()));
        assert(samples_le(samples.push(s)) =~= samples_le(samples) + sample_le(s));
    }
}

/// The 44-byte header for `nsamples` mono 16-bit samples at `rate` Hz:
/// `"RIFF"`, the chunk size `36 + 2 * nsamples`, `"WAVE"`, the 16-byte PCM
/// format block, then `"data"` and the data byte count `2 * nsamples`.
pub open spec fn wav_header(nsamples: int, rate: int) -> Seq<u8> {
    seq![0x52u8, 0x49u8, 0x46u8, 0x46u8] + le32(36 + 2 * nsamples) + seq![
        0x57u8,
        0x41u8,
        0x56u8,
        0x45u8,
    ] + seq![0x66u8, 0x6du8, 0x74u8, 0x20u8] + le32(16) + le16(1) + le16(1) + le32(rate) + le32(
        rate * 2,
    ) + le16(2) + le16(16) + seq![0x64u8, 0x61u8, 0x74u8, 0x61u8] + le32(2 * nsamples)
}

/// The complete WAV file: the header followed by every sample in
/// little-endian order.
pub open spec fn wav_spec(samples: Seq<i16>, rate: int) -> Seq<u8> {
    wav_header(samples.len() as int, rate) + samples_le(samples)
}

fn push_le32(out: &mut Vec<u8>, v: u32)
    ensures
        final(out)@ == old(out)@ + le32(v as int),
{
    out.push((v % 256) as u8);
    out.push((v / 256 % 256) as u8);
    out.push((v / 65536 % 256) as u8);
    out.push((v / 16777216) as u8);
    proof {
        assert(v as int / 16777216 < 256);
        assert(out@ =~= old(out)@ + le32(v as int));
    }
}

fn push_le16(out: &mut Vec<u8>, v: u16)
    ensures
        final(out)@ == old(out)@ + le16(v as int),
{
    out.push((v % 256) as u8);
    out.push((v / 256) as u8);
    proof {
        assert(v as int / 256 % 256 == v as int / 256);
        assert(out@ =~= old(out)@ + le16(v as int));
    }
}

fn push_sample(out: &mut Vec<u8>, s: i16)
    ensures
        final(out)@ == old(out)@ + sample_le(s),
{
    let u: u32 = if s >= 0 {
        s as u32
    } else {
        (s as i32 + 65536) as u32
    };
    out.push((u % 256) as u8);
    out.push((u / 256) as u8);
    proof {
        assert(u as int / 256 % 256 == u as int / 256);
        assert(out@ =~= old(out)@ + sample_le(s));
    }
}

/// Assemble the complete WAV file for `samples` at `rate` Hz, bit for bit
/// as the header layout prescribes: the RIFF size field holds
/// `36 + data_bytes` and the data chunk holds `2 * samples.len()` bytes.
pub fn wav_bytes(samples: &Vec<i16>, rate: u32) -> (out: Vec<u8>)
    requires
        36 + 2 * samples@.len() <= u32::MAX,
        2 * rate <= u32::MAX,
    ensures
        out@ == wav_spec(samples@, rate as int),
        out@.len() == 44 + 2 * samples@.len(),
{
    let n: u32 = samples.len() as u32;
    let mut out: Vec<u8> = Vec::new();
    out.push(0x52);
    out.push(0x49);
    out.push(0x46);
    out.push(0x46);
    push_le32(&mut out, 36 + 2 * n);
    out.push(0x57);
    out.push(0x41);
    out.push(0x56);
    out.push(0x45);
    out.push(0x66);
    out.push(0x6d);
    out.push(0x74);
    out.push(0x20);
    push_le32(&mut out, 16);
    push_le16(&mut out, 1);
    push_le16(&mut out, 1);
    push_le32(&mut out, rate);
    push_le32(&mut out, rate * 2);
    push_le16(&mut out, 2);
    push_le16(&mut out, 16);
    out.push(0x64);
    out.push(0x61);
    out.push(0x74);
    out.push(0x61);
    push_le32(&mut out, 2 * n);
    proof {
        assert(out@ =~= wav_header(samples@.len() as int, rate as int));
        assert(samples@.take(0) =~= Seq::<i16>::empty());
        assert(out@ + samples_le(samples@.take(0)) =~= out@);
    }
    let mut i: usize = 0;
    while i < samples.len()
        invariant
            i <= samples@.len(),
            out@ == wav_header(samples@.len() as int, rate as int) + samples_le(
                samples@.take(i as int),
            ),
        decreases samples@.len() - i,
    {
        proof {
            assert(samples@.take(i + 1) =~= samples@.take(i as int).push(samples@[i as int]));
            lemma_samples_le_snoc(samples@.take(i as int), samples@[i as int]);
        }
        push_sample(&mut out, samples[i]);
        proof {
            assert(out@ =~= wav_header(samples@.len() as int, rate as int) + samples_le(
                samples@.take(i + 1),
            ));
        }
        i = i + 1;
    }
    proof {
        assert(samples@.take(samples@.len() as int) =~= samples@);
        lemma_samples_le_len(samples@);
    }
    out
}

} // verus!
