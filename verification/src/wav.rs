//! 16 kHz mono 16-bit PCM WAV encoding.

use vstd::prelude::*;

verus! {

/// The little-endian bytes of a 16-bit value.
pub open spec fn le16(x: nat) -> Seq<u8> {
    seq![(x % 256) as u8, ((x / 256) % 256) as u8]
}

/// The little-endian bytes of a 32-bit value.
pub open spec fn le32(x: nat) -> Seq<u8> {
    seq![(x % 256) as u8, ((x / 256) % 256) as u8, ((x / 65536) % 256) as u8, ((x / 16777216) % 256) as u8]
}

/// The 44-byte RIFF header of a 16 kHz mono 16-bit PCM WAV file holding
/// `data_size` bytes of samples.
pub open spec fn wav_header(data_size: nat) -> Seq<u8> {
    seq![82u8, 73, 70, 70] + le32(36 + data_size) + seq![87u8, 65, 86, 69] + seq![102u8, 109, 116, 32]
        + le32(16) + le16(1) + le16(1) + le32(16000) + le32(32000) + le16(2) + le16(16) + seq![
        100u8,
        97,
        116,
        97,
    ] + le32(data_size)
}

/// The bytes of a sample: its two's-complement value, little-endian.
pub open spec fn sample_bytes(s: i16) -> Seq<u8> {
    le16((if s < 0 { s + 65536 } else { s as int }) as nat)
}

/// The little-endian bytes of the samples, in order.
pub open spec fn samples_bytes(samples: Seq<i16>) -> Seq<u8>
    decreases samples.len(),
{
    if samples.len() == 0 {
        Seq::empty()
    } else {
        samples_bytes(samples.drop_last()) + sample_bytes(samples.last())
    }
}

/// A 16 kHz mono 16-bit PCM WAV file of the samples.
pub open spec fn wav_of_samples(samples: Seq<i16>) -> Seq<u8> {
    wav_header(2 * samples.len()) + samples_bytes(samples)
}

pub(crate) fn push_bytes(v: &mut Vec<u8>, b: &[u8])
    ensures
        final(v)@ == old(v)@ + b@,
{
    let ghost base = v@;
    let mut i: usize = 0;
    while i < b.len()
        invariant
            i <= b@.len(),
            v@ == base + b@.take(i as int),
        decreases b@.len() - i,
    {
        v.push(b[i]);
        i += 1;
        assert(v@ =~= base + b@.take(i as int));
    }
    assert(b@.take(i as int) =~= b@);
}

fn push_le16(v: &mut Vec<u8>, x: u16)
    ensures
        final(v)@ == old(v)@ + le16(x as nat),
{
    let b = [(x % 256) as u8, ((x / 256) % 256) as u8];
    assert(b@ =~= le16(x as nat));
    push_bytes(v, &b);
}

fn push_le32(v: &mut Vec<u8>, x: u32)
    ensures
        final(v)@ == old(v)@ + le32(x as nat),
{
    let b = [(x % 256) as u8, ((x / 256) % 256) as u8, ((x / 65536) % 256) as u8, ((x / 16777216) % 256) as u8];
    assert(b@ =~= le32(x as nat));
    push_bytes(v, &b);
}

/// Appends the WAV header for `data_size` bytes of samples.
pub(crate) fn push_wav_header(v: &mut Vec<u8>, data_size: u32)
    requires
        data_size + 36 <= u32::MAX,
    ensures
        final(v)@ == old(v)@ + wav_header(data_size as nat),
{
    let ghost base = v@;
    push_bytes(v, &[82u8, 73, 70, 70]);
    push_le32(v, 36 + data_size);
    push_bytes(v, &[87u8, 65, 86, 69]);
    push_bytes(v, &[102u8, 109, 116, 32]);
    push_le32(v, 16);
    push_le16(v, 1);
    push_le16(v, 1);
    push_le32(v, 16000);
    push_le32(v, 32000);
    push_le16(v, 2);
    push_le16(v, 16);
    push_bytes(v, &[100u8, 97, 116, 97]);
    push_le32(v, data_size);
    assert(v@ =~= base + wav_header(data_size as nat));
}

/// Encodes 16 kHz mono 16-bit samples as a WAV file.
pub fn encode_wav_16k_mono(samples: &[i16]) -> (r: Vec<u8>)
    requires
        2 * samples@.len() + 44 <= u32::MAX,
    ensures
        r@ == wav_of_samples(samples@),
{
    let data_size = (2 * samples.len()) as u32;
    let mut wav: Vec<u8> = Vec::new();
    push_wav_header(&mut wav, data_size);
    let ghost header = wav@;
    let mut i: usize = 0;
    while i < samples.len()
        invariant
            i <= samples@.len(),
            wav@ == header + samples_bytes(samples@.take(i as int)),
        decreases samples@.len() - i,
    {
        assert(samples@.take(i + 1).drop_last() =~= samples@.take(i as int));
        let s = samples[i];
        let u: u16 = if s < 0 {
            (s as i32 + 65536) as u16
        } else {
            s as u16
        };
        push_le16(&mut wav, u);
        i += 1;
        assert(wav@ =~= header + samples_bytes(samples@.take(i as int)));
    }
    assert(samples@.take(i as int) =~= samples@);
    assert(wav@ =~= wav_of_samples(samples@));
    wav
}

} // verus!
