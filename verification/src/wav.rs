//! Little-endian PCM bytes and WAV files.
//!
//! SimulStreaming takes raw 16-bit little-endian PCM over TCP; the HTTP
//! transcription API takes a WAV file. Both are built here.
use vstd::prelude::*;

verus! {

/// The two little-endian bytes of a 16-bit value.
pub open spec fn le16(x: u16) -> Seq<u8> {
    seq![(x % 256) as u8, (x / 256) as u8]
}

/// The four little-endian bytes of a 32-bit value.
pub open spec fn le32(x: u32) -> Seq<u8> {
    seq![(x % 256) as u8, (x / 256 % 256) as u8, (x / 65536 % 256) as u8, (x / 16777216) as u8]
}

/// The two little-endian bytes of a signed sample (its two's complement bits).
pub open spec fn sample_le(s: i16) -> Seq<u8> {
    le16(s as u16)
}

/// Byte `i` of the little-endian encoding of `pcm`: two bytes per sample, in
/// order.
pub open spec fn pcm_le_bytes(pcm: Seq<i16>) -> Seq<u8> {
    Seq::new(pcm.len() * 2, |i: int| sample_le(pcm[i / 2])[i % 2])
}

/// The 16-bit sample read back from two little-endian bytes.
pub open spec fn sample_from_le(lo: u8, hi: u8) -> i16 {
    (hi as u16 * 256 + lo as u16) as u16 as i16
}

/// The four ASCII bytes of a chunk tag.
pub open spec fn tag(a: char, b: char, c: char, d: char) -> Seq<u8> {
    seq![a as u8, b as u8, c as u8, d as u8]
}

/// The length field of the data chunk: twice the sample count, kept to
/// 32 bits.
pub open spec fn wav_data_len(n_samples: nat) -> u32 {
    (n_samples * 2) as u32
}

/// The 44-byte header of a 16-bit PCM WAV file.
pub open spec fn wav_header(n_samples: nat, sample_rate: u32, channels: u16) -> Seq<u8> {
    let data_len = wav_data_len(n_samples);
    tag('R', 'I', 'F', 'F') + le32((36 + data_len) as u32) + tag('W', 'A', 'V', 'E') + tag(
        'f',
        'm',
        't',
        ' ',
    ) + le32(16) + le16(1) + le16(channels) + le32(sample_rate) + le32(
        (sample_rate * 2 * channels) as u32,
    ) + le16((2 * channels) as u16) + le16(16) + tag('d', 'a', 't', 'a') + le32(data_len)
}

/// A whole WAV file: header, then the samples.
pub open spec fn wav_bytes(pcm: Seq<i16>, sample_rate: u32, channels: u16) -> Seq<u8> {
    wav_header(pcm.len(), sample_rate, channels) + pcm_le_bytes(pcm)
}

fn push_le16(out: &mut Vec<u8>, x: u16)
    ensures
        final(out)@ == old(out)@ + le16(x),
{
    let lo = (x & 0xff) as u8;
    let hi = (x >> 8) as u8;
    proof {
        assert((x & 0xff) == x % 256) by (bit_vector);
        assert((x >> 8) == x / 256) by (bit_vector);
    }
    out.push(lo);
    out.push(hi);
    proof {
        assert(final(out)@ =~= old(out)@ + le16(x));
    }
}

fn push_le32(out: &mut Vec<u8>, x: u32)
    ensures
        final(out)@ == old(out)@ + le32(x),
{
    proof {
        assert((x & 0xff) == x % 256) by (bit_vector);
        assert(((x >> 8) & 0xff) == x / 256 % 256) by (bit_vector);
        assert(((x >> 16) & 0xff) == x / 65536 % 256) by (bit_vector);
        assert((x >> 24) == x / 16777216) by (bit_vector);
    }
    out.push((x & 0xff) as u8);
    out.push(((x >> 8) & 0xff) as u8);
    out.push(((x >> 16) & 0xff) as u8);
    out.push((x >> 24) as u8);
    proof {
        assert(final(out)@ =~= old(out)@ + le32(x));
    }
}

fn push_tag(out: &mut Vec<u8>, a: u8, b: u8, c: u8, d: u8)
    ensures
        final(out)@ == old(out)@ + seq![a, b, c, d],
{
    out.push(a);
    out.push(b);
    out.push(c);
    out.push(d);
    proof {
        assert(final(out)@ =~= old(out)@ + seq![a, b, c, d]);
    }
}

/// Append the little-endian bytes of `pcm` to `out`.
fn append_pcm_le(out: &mut Vec<u8>, pcm: &[i16])
    requires
        old(out)@.len() + pcm@.len() * 2 <= usize::MAX,
    ensures
        final(out)@ == old(out)@ + pcm_le_bytes(pcm@),
{
    let ghost start = out@;
    let n = pcm.len();
    for i in 0..n
        invariant
            n == pcm@.len(),
            start.len() + n * 2 <= usize::MAX,
            out@ == start + pcm_le_bytes(pcm@.take(i as int)),
    {
        let s = pcm[i];
        push_le16(out, s as u16);
        proof {
            let t1 = pcm@.take(i + 1);
            let t0 = pcm@.take(i as int);
            assert(t1[i as int] == s);
            assert forall|k: int| 0 <= k < t0.len() * 2 implies pcm_le_bytes(t1)[k]
                == pcm_le_bytes(t0)[k] by {
                assert(t1[k / 2] == t0[k / 2]);
            }
            assert(pcm_le_bytes(t1) =~= pcm_le_bytes(t0) + sample_le(s));
            assert(out@ =~= start + pcm_le_bytes(t1));
        }
    }
    proof {
        assert(pcm@.take(n as int) =~= pcm@);
    }
}

/// The little-endian bytes of 16-bit PCM samples, as sent to SimulStreaming.
pub fn pcm_to_le_bytes(pcm: &[i16]) -> (r: Vec<u8>)
    requires
        pcm@.len() * 2 <= usize::MAX,
    ensures
        r@ == pcm_le_bytes(pcm@),
{
    let mut out: Vec<u8> = Vec::new();
    append_pcm_le(&mut out, pcm);
    proof {
        assert(out@ =~= pcm_le_bytes(pcm@));
    }
    out
}

/// Build a 16-bit PCM WAV file holding `pcm`.
///
/// The data length field is twice the sample count kept to 32 bits; the
/// `requires` rules out the sizes for which the header's arithmetic
/// overflows.
pub fn create_wav(pcm: Vec<i16>, sample_rate: u32, channels: u16) -> (r: Vec<u8>)
    requires
        44 + pcm@.len() * 2 <= usize::MAX,
        36 + wav_data_len(pcm@.len()) <= u32::MAX,
        sample_rate * 2 <= u32::MAX,
        sample_rate * 2 * channels <= u32::MAX,
        2 * channels <= u16::MAX,
    ensures
        r@ == wav_bytes(pcm@, sample_rate, channels),
{
    let mut header: Vec<u8> = Vec::new();
    let data_len = #[verifier::truncate] ((pcm.len() * 2) as u32);
    let total_len = 36 + data_len;
    // RIFF header
    push_tag(&mut header, 'R' as u8, 'I' as u8, 'F' as u8, 'F' as u8);
    push_le32(&mut header, total_len);
    push_tag(&mut header, 'W' as u8, 'A' as u8, 'V' as u8, 'E' as u8);
    // fmt chunk
    push_tag(&mut header, 'f' as u8, 'm' as u8, 't' as u8, ' ' as u8);
    push_le32(&mut header, 16);  // chunk size
    push_le16(&mut header, 1);  // PCM
    push_le16(&mut header, channels);
    push_le32(&mut header, sample_rate);
    push_le32(&mut header, sample_rate * 2 * channels as u32);  // byte rate
    push_le16(&mut header, 2 * channels);  // block align
    push_le16(&mut header, 16);  // bits per sample
    // data chunk
    push_tag(&mut header, 'd' as u8, 'a' as u8, 't' as u8, 'a' as u8);
    push_le32(&mut header, data_len);
    proof {
        assert(header@ =~= wav_header(pcm@.len(), sample_rate, channels));
    }
    append_pcm_le(&mut header, pcm.as_slice());
    header
}

/// Decoding the little-endian bytes gives back every sample: sample `i` is
/// read from bytes `2i` and `2i + 1`.
pub proof fn lemma_pcm_le_bytes_round_trip(pcm: Seq<i16>, i: int)
    requires
        0 <= i < pcm.len(),
    ensures
        pcm_le_bytes(pcm).len() == pcm.len() * 2,
        sample_from_le(pcm_le_bytes(pcm)[2 * i], pcm_le_bytes(pcm)[2 * i + 1]) == pcm[i],
{
    let s = pcm[i];
    assert((2 * i) / 2 == i);
    assert((2 * i + 1) / 2 == i);
    assert((2 * i) % 2 == 0);
    assert((2 * i + 1) % 2 == 1);
    assert(((((s as u16) / 256) as u8) as u16 * 256 + (((s as u16) % 256) as u8) as u16) as u16
        as i16 == s) by (bit_vector);
}

/// The WAV header is 44 bytes; its data length field is twice the sample
/// count and its RIFF length field is the file length less 8, for every file
/// whose data length fits in 32 bits.
pub proof fn lemma_wav_layout(pcm: Seq<i16>, sample_rate: u32, channels: u16)
    requires
        pcm.len() * 2 + 36 <= u32::MAX,
    ensures
        wav_header(pcm.len(), sample_rate, channels).len() == 44,
        wav_bytes(pcm, sample_rate, channels).len() == 44 + pcm.len() * 2,
        wav_data_len(pcm.len()) == pcm.len() * 2,
        (36 + wav_data_len(pcm.len())) as u32 + 8 == wav_bytes(pcm, sample_rate, channels).len(),
        wav_bytes(pcm, sample_rate, channels).subrange(44, 44 + pcm.len() * 2 as int) == pcm_le_bytes(
            pcm,
        ),
{
    let b = wav_bytes(pcm, sample_rate, channels);
    assert(b.subrange(44, 44 + pcm.len() * 2 as int) =~= pcm_le_bytes(pcm));
}

/// The little-endian 16-bit number stored at `b[i..i + 2]`.
pub open spec fn u16_at(b: Seq<u8>, i: int) -> int {
    b[i] + 256 * b[i + 1]
}

/// The little-endian 32-bit number stored at `b[i..i + 4]`.
pub open spec fn u32_at(b: Seq<u8>, i: int) -> int {
    b[i] + 256 * b[i + 1] + 65536 * b[i + 2] + 16777216 * b[i + 3]
}

proof fn lemma_le16_reads_back(x: u16)
    ensures
        le16(x).len() == 2,
        le16(x)[0] + 256 * le16(x)[1] == x,
{
    assert(((x % 256) as u8) as int + 256 * ((x / 256) as u8) as int == x) by (bit_vector);
}

proof fn lemma_le32_reads_back(x: u32)
    ensures
        le32(x).len() == 4,
        le32(x)[0] + 256 * le32(x)[1] + 65536 * le32(x)[2] + 16777216 * le32(x)[3] == x,
{
    assert(((x % 256) as u8) as int + 256 * ((x / 256 % 256) as u8) as int + 65536 * ((x / 65536
        % 256) as u8) as int + 16777216 * ((x / 16777216) as u8) as int == x) by (bit_vector);
}

/// Every field of the header reads back as what the file was built from: the
/// "RIFF" tag, then the file length less 8; the "WAVE" and "fmt " tags; a
/// format chunk of 16 bytes for PCM (format 1) with `channels` channels at
/// `sample_rate`, a byte rate of `sample_rate * 2 * channels`, a block of
/// `2 * channels` bytes and 16 bits per sample; then the "data" tag and the
/// data length, twice the sample count, after which the samples follow.
pub proof fn lemma_wav_fields(pcm: Seq<i16>, sample_rate: u32, channels: u16)
    requires
        36 + pcm.len() * 2 <= u32::MAX,
        sample_rate * 2 * channels <= u32::MAX,
        2 * channels <= u16::MAX,
    ensures
        ({
            let b = wav_bytes(pcm, sample_rate, channels);
            &&& b.len() == 44 + 2 * pcm.len()
            &&& b[0] == 82 && b[1] == 73 && b[2] == 70 && b[3] == 70
            &&& u32_at(b, 4) == b.len() - 8
            &&& b[8] == 87 && b[9] == 65 && b[10] == 86 && b[11] == 69
            &&& b[12] == 102 && b[13] == 109 && b[14] == 116 && b[15] == 32
            &&& u32_at(b, 16) == 16
            &&& u16_at(b, 20) == 1
            &&& u16_at(b, 22) == channels
            &&& u32_at(b, 24) == sample_rate
            &&& u32_at(b, 28) == sample_rate * 2 * channels
            &&& u16_at(b, 32) == 2 * channels
            &&& u16_at(b, 34) == 16
            &&& b[36] == 100 && b[37] == 97 && b[38] == 116 && b[39] == 97
            &&& u32_at(b, 40) == 2 * pcm.len()
            &&& forall|i: int|
                0 <= i < pcm.len() ==> sample_from_le(#[trigger] b[44 + 2 * i], b[44 + 2 * i + 1])
                    == pcm[i]
        }),
{
    let n = pcm.len();
    let data_len = wav_data_len(n);
    assert(data_len == 2 * n);
    let b = wav_bytes(pcm, sample_rate, channels);
    let h = wav_header(n, sample_rate, channels);
    lemma_le32_reads_back((36 + data_len) as u32);
    lemma_le32_reads_back(16);
    lemma_le16_reads_back(1);
    lemma_le16_reads_back(channels);
    lemma_le32_reads_back(sample_rate);
    lemma_le32_reads_back((sample_rate * 2 * channels) as u32);
    lemma_le16_reads_back((2 * channels) as u16);
    lemma_le16_reads_back(16);
    lemma_le32_reads_back(data_len);
    assert(h =~= tag('R', 'I', 'F', 'F') + le32((36 + data_len) as u32) + tag('W', 'A', 'V', 'E')
        + tag('f', 'm', 't', ' ') + le32(16) + le16(1) + le16(channels) + le32(sample_rate) + le32(
        (sample_rate * 2 * channels) as u32,
    ) + le16((2 * channels) as u16) + le16(16) + tag('d', 'a', 't', 'a') + le32(data_len));
    assert(h.len() == 44);
    assert forall|k: int| 0 <= k < 44 implies b[k] == h[k] by {}
    assert forall|i: int| 0 <= i < pcm.len() implies sample_from_le(
        #[trigger] b[44 + 2 * i],
        b[44 + 2 * i + 1],
    ) == pcm[i] by {
        lemma_pcm_le_bytes_round_trip(pcm, i);
        assert(b[44 + 2 * i] == pcm_le_bytes(pcm)[2 * i]);
        assert(b[44 + 2 * i + 1] == pcm_le_bytes(pcm)[2 * i + 1]);
    }
}

} // verus!
