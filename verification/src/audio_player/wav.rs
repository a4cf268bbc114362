//! RIFF/WAVE files holding uncompressed PCM (8, 16, 24 or 32 bits per sample).
use vstd::prelude::*;
use super::{AudioError, PcmBuffer, HDA_CHANNELS};
use crate::rtc::tdiv;

verus! {

/// What the header of a WAV file says.
#[derive(Debug, Clone, Copy, PartialEq, Eq, Structural)]
pub struct WavMeta {
    pub sample_rate: u32,
    pub channels: u16,
    pub bits_per_sample: u16,
    pub is_pcm: bool,
    pub data_offset: usize,
    pub data_size: usize,
    pub duration_ms: u64,
}

impl WavMeta {
    pub fn is_stereo(&self) -> (res: bool)
        ensures
            res == (self.channels == 2),
    {
        self.channels == 2
    }
}

/// Little-endian 16-bit value at `i`.
pub open spec fn le16(d: Seq<u8>, i: int) -> nat {
    (d[i] + 256 * d[i + 1]) as nat
}

/// Little-endian 32-bit value at `i`.
pub open spec fn le32(d: Seq<u8>, i: int) -> nat {
    le16(d, i) + 65536 * le16(d, i + 2)
}

/// Big-endian 32-bit value at `i`.
pub open spec fn be32(d: Seq<u8>, i: int) -> nat {
    (d[i] * 16777216 + d[i + 1] * 65536 + d[i + 2] * 256 + d[i + 3]) as nat
}

fn read_u16_le(data: &[u8], off: usize) -> (res: u16)
    requires
        off + 2 <= data@.len(),
    ensures
        res == le16(data@, off as int),
{
    data[off] as u16 + 256 * (data[off + 1] as u16)
}

fn read_u32_le(data: &[u8], off: usize) -> (res: u32)
    requires
        off + 4 <= data@.len(),
    ensures
        res == le32(data@, off as int),
{
    let _n = data.len();
    let lo = read_u16_le(data, off) as u32;
    let hi = read_u16_le(data, off + 2) as u32;
    lo + 65536 * hi
}

/// Reads a big-endian 32-bit value.
pub fn read_u32_be_safe(data: &[u8], off: usize) -> (res: u32)
    requires
        off + 4 <= data@.len(),
    ensures
        res == be32(data@, off as int),
{
    (data[off] as u32) * 16777216 + (data[off + 1] as u32) * 65536 + (data[off + 2] as u32) * 256
        + data[off + 3] as u32
}

/// The format fields gathered while walking the chunks.
#[derive(Debug, Clone, Copy, PartialEq, Eq, Structural)]
pub struct FmtFields {
    pub sample_rate: u32,
    pub channels: u16,
    pub bits_per_sample: u16,
    pub is_pcm: bool,
}

/// A chunk's id at `off`.
pub open spec fn chunk_is(d: Seq<u8>, off: int, a: u8, b: u8, c: u8, e: u8) -> bool {
    d[off] == a && d[off + 1] == b && d[off + 2] == c && d[off + 3] == e
}

/// A chunk's size rounded up to an even number of bytes.
pub open spec fn padded(size: nat) -> nat {
    if size % 2 == 1 { size + 1 } else { size }
}

/// Walks the chunks from `off` on: the format fields as the last `fmt ` chunk before the
/// `data` chunk set them, with the offset and size of the `data` chunk's body (offset 0
/// when none is found); `None` where a `fmt ` chunk is shorter than 16 bytes.
pub open spec fn scan_chunks(d: Seq<u8>, off: nat, st: FmtFields) -> Option<(FmtFields, nat, nat)>
    decreases d.len() + 1 - off,
{
    if off + 8 > d.len() {
        Some((st, 0nat, 0nat))
    } else {
        let size = le32(d, off + 4int);
        let body = off + 8;
        if body + size > d.len() {
            Some((st, 0nat, 0nat))
        } else if chunk_is(d, off as int, 0x66, 0x6d, 0x74, 0x20) {
            if size < 16 {
                None
            } else {
                let code = le16(d, body as int);
                let st2 = FmtFields {
                    sample_rate: le32(d, body + 4int) as u32,
                    channels: le16(d, body + 2int) as u16,
                    bits_per_sample: le16(d, body + 14int) as u16,
                    is_pcm: code == 0 || code == 1,
                };
                scan_chunks(d, body + padded(size), st2)
            }
        } else if chunk_is(d, off as int, 0x64, 0x61, 0x74, 0x61) {
            Some((st, body, size))
        } else {
            scan_chunks(d, body + padded(size), st)
        }
    }
}

proof fn lemma_scan_bounds(d: Seq<u8>, off: nat, st: FmtFields)
    ensures
        scan_chunks(d, off, st) matches Some((st2, doff, dsize)) ==> doff + dsize <= d.len(),
    decreases d.len() + 1 - off,
{
    if off + 8 <= d.len() {
        let size = le32(d, off + 4int);
        let body = off + 8;
        if body + size <= d.len() {
            if chunk_is(d, off as int, 0x66, 0x6d, 0x74, 0x20) {
                if size >= 16 {
                    let code = le16(d, body as int);
                    let st2 = FmtFields {
                        sample_rate: le32(d, body + 4int) as u32,
                        channels: le16(d, body + 2int) as u16,
                        bits_per_sample: le16(d, body + 14int) as u16,
                        is_pcm: code == 0 || code == 1,
                    };
                    lemma_scan_bounds(d, body + padded(size), st2);
                }
            } else if !chunk_is(d, off as int, 0x64, 0x61, 0x74, 0x61) {
                lemma_scan_bounds(d, body + padded(size), st);
            }
        }
    }
}

/// The header's data chunk lies within the file.
pub proof fn lemma_meta_bounds(d: Seq<u8>)
    requires
        d.len() <= usize::MAX,
    ensures
        spec_parse_wav(d) matches Ok(m) ==> m.data_offset <= d.len() && m.data_offset >= 1,
{
    lemma_scan_bounds(d, 12, no_fmt());
}

pub open spec fn no_fmt() -> FmtFields {
    FmtFields { sample_rate: 0, channels: 0, bits_per_sample: 0, is_pcm: false }
}

/// The header of a WAV file, or why it is refused.
pub open spec fn spec_parse_wav(d: Seq<u8>) -> Result<WavMeta, AudioError> {
    if d.len() < 44 || !super::is_riff_wave(d) {
        Err(AudioError::InvalidFormat)
    } else {
        match scan_chunks(d, 12, no_fmt()) {
            None => Err(AudioError::InvalidFormat),
            Some((st, doff, dsize)) => {
                if st.sample_rate == 0 || st.channels == 0 || st.bits_per_sample == 0 || doff == 0 {
                    Err(AudioError::InvalidFormat)
                } else {
                    let size: nat = if dsize == 0 { (d.len() - doff) as nat } else { dsize };
                    let bpf = st.channels * (st.bits_per_sample / 8);
                    let frames: nat = if bpf > 0 { size / bpf as nat } else { 0 };
                    Ok(WavMeta {
                        sample_rate: st.sample_rate,
                        channels: st.channels,
                        bits_per_sample: st.bits_per_sample,
                        is_pcm: st.is_pcm,
                        data_offset: doff as usize,
                        data_size: size as usize,
                        duration_ms: ((frames * 1000) / st.sample_rate as nat) as u64,
                    })
                }
            },
        }
    }
}

/// Reads the header of a WAV file; the samples are not copied.
pub fn parse_wav(data: &[u8]) -> (res: Result<WavMeta, AudioError>)
    requires
        data@.len() * 1000 <= u64::MAX,
    ensures
        res == spec_parse_wav(data@),
{
    let ghost d = data@;
    if data.len() < 44 {
        return Err(AudioError::InvalidFormat);
    }
    if !(data[0] == 0x52 && data[1] == 0x49 && data[2] == 0x46 && data[3] == 0x46 && data[8] == 0x57
        && data[9] == 0x41 && data[10] == 0x56 && data[11] == 0x45) {
        return Err(AudioError::InvalidFormat);
    }
    let mut off: usize = 12;
    let mut sample_rate: u32 = 0;
    let mut channels: u16 = 0;
    let mut bits_per_sample: u16 = 0;
    let mut is_pcm: bool = false;
    let mut data_offset: usize = 0;
    let mut data_size: usize = 0;
    let ghost mut result: Option<(FmtFields, nat, nat)> = scan_chunks(d, 12, no_fmt());
    while off <= data.len() && data.len() - off >= 8
        invariant_except_break
            off <= data@.len() + 1,
            data_offset == 0,
            data_size == 0,
            scan_chunks(d, off as nat, FmtFields { sample_rate, channels, bits_per_sample, is_pcm })
                == scan_chunks(d, 12, no_fmt()),
            d == data@,
        ensures
            ({
                let st = FmtFields { sample_rate, channels, bits_per_sample, is_pcm };
                scan_chunks(d, 12, no_fmt()) == Some((st, data_offset as nat, data_size as nat))
            }),
            data_offset + data_size <= data@.len(),
        decreases data@.len() + 1 - off,
    {
        let size = read_u32_le(data, off + 4) as usize;
        let body_off = off + 8;
        if size > data.len() - body_off {
            break;
        }
        let ghost st0 = FmtFields { sample_rate, channels, bits_per_sample, is_pcm };
        if data[off] == 0x66 && data[off + 1] == 0x6d && data[off + 2] == 0x74 && data[off + 3] == 0x20 {
            if size < 16 {
                return Err(AudioError::InvalidFormat);
            }
            let fmt_code = read_u16_le(data, body_off);
            is_pcm = fmt_code == 0 || fmt_code == 1;
            channels = read_u16_le(data, body_off + 2);
            sample_rate = read_u32_le(data, body_off + 4);
            bits_per_sample = read_u16_le(data, body_off + 14);
        } else if data[off] == 0x64 && data[off + 1] == 0x61 && data[off + 2] == 0x74 && data[off + 3] == 0x61 {
            data_offset = body_off;
            data_size = size;
            break;
        }
        let aligned: usize = if size % 2 == 1 { size + 1 } else { size };
        proof {
            let st = FmtFields { sample_rate, channels, bits_per_sample, is_pcm };
            assert(scan_chunks(d, off as nat, st0) == scan_chunks(d, (body_off + aligned) as nat, st));
        }
        if aligned > data.len() - body_off {
            // The next chunk would start past the end: nothing more to read.
            proof {
                let st = FmtFields { sample_rate, channels, bits_per_sample, is_pcm };
                assert(scan_chunks(d, (body_off + aligned) as nat, st) == Some((st, 0nat, 0nat)));
            }
            break;
        }
        off = body_off + aligned;
    }
    if sample_rate == 0 || channels == 0 || bits_per_sample == 0 || data_offset == 0 {
        return Err(AudioError::InvalidFormat);
    }
    if data_size == 0 {
        data_size = data.len() - data_offset;
    }
    assert((channels as usize) * (bits_per_sample as usize / 8) <= 65535 * 8191) by (nonlinear_arith)
        requires channels <= 65535, bits_per_sample as usize / 8 <= 8191;
    let bytes_per_frame: usize = (channels as usize) * (bits_per_sample as usize / 8);
    let frames: usize = if bytes_per_frame > 0 { data_size / bytes_per_frame } else { 0 };
    assert(frames <= data_size);
    assert(frames * 1000 <= u64::MAX) by (nonlinear_arith)
        requires frames <= data_size, data_size <= data@.len(), data@.len() * 1000 <= u64::MAX;
    let duration_ms: u64 = (frames as u64 * 1000) / (sample_rate as u64);
    Ok(WavMeta { sample_rate, channels, bits_per_sample, is_pcm, data_offset, data_size, duration_ms })
}

/// The two's-complement value of a little-endian sample of `bits` bits at `off`
/// (8-bit samples are unsigned).
pub open spec fn spec_read_sample(d: Seq<u8>, off: int, bits: u16) -> int {
    if bits == 8 {
        d[off] as int
    } else if bits == 16 {
        let u = le16(d, off);
        if u >= 32768 { u - 65536 } else { u as int }
    } else if bits == 24 {
        let hi: int = if d[off + 2] >= 128 { d[off + 2] - 256 } else { d[off + 2] as int };
        d[off] + 256 * d[off + 1] + 65536 * hi
    } else if bits == 32 {
        let u = le32(d, off);
        if u >= 0x8000_0000 { u - 0x1_0000_0000 } else { u as int }
    } else {
        0
    }
}

pub open spec fn clamp16(v: int) -> i16 {
    if v < -32768 { -32768i16 } else if v > 32767 { 32767i16 } else { v as i16 }
}

/// A sample scaled to 16 bits (8-bit samples are centred on 128).
pub open spec fn spec_to_i16(s: int, bits: u16) -> i16 {
    if bits == 8 {
        clamp16((s - 128) * 256)
    } else if bits == 16 {
        clamp16(s)
    } else if bits == 24 {
        clamp16(s / 256)
    } else if bits == 32 {
        clamp16(s / 65536)
    } else {
        0
    }
}

fn read_sample_le(data: &[u8], off: usize, bits: u16) -> (res: i32)
    requires
        bits == 8 || bits == 16 || bits == 24 || bits == 32,
        off + bits / 8 <= data@.len(),
    ensures
        res == spec_read_sample(data@, off as int, bits),
{
    if bits == 8 {
        data[off] as i32
    } else if bits == 16 {
        let u = read_u16_le(data, off) as i32;
        if u >= 32768 { u - 65536 } else { u }
    } else if bits == 24 {
        let _n = data.len();
        let b2 = data[off + 2] as i32;
        let hi: i32 = if b2 >= 128 { b2 - 256 } else { b2 };
        data[off] as i32 + 256 * (data[off + 1] as i32) + 65536 * hi
    } else {
        let u = read_u32_le(data, off) as i64;
        (if u >= 0x8000_0000 { u - 0x1_0000_0000 } else { u }) as i32
    }
}

fn clamp_i16(v: i64) -> (res: i16)
    ensures
        res == clamp16(v as int),
{
    if v < -32768 { -32768 } else if v > 32767 { 32767 } else { v as i16 }
}

fn sample_to_i16(s: i32, bits: u16) -> (res: i16)
    requires
        bits == 8 ==> 0 <= s <= 255,
    ensures
        res == spec_to_i16(s as int, bits),
{
    if bits == 8 {
        clamp_i16(((s as i64) - 128) * 256)
    } else if bits == 16 {
        clamp_i16(s as i64)
    } else if bits == 24 {
        clamp_i16((s as i64 + 0x8000_0000) / 256 - 0x80_0000)
    } else if bits == 32 {
        clamp_i16((s as i64 + 0x8000_0000) / 65536 - 0x8000)
    } else {
        0
    }
}

/// Whether a WAV header carries samples that can be decoded.
pub open spec fn pcm_bits_ok(m: WavMeta) -> bool {
    m.is_pcm && (m.bits_per_sample == 8 || m.bits_per_sample == 16 || m.bits_per_sample == 24
        || m.bits_per_sample == 32)
}

/// The bytes of one frame (one sample of every channel).
pub open spec fn frame_bytes(m: WavMeta) -> nat {
    m.channels as nat * (m.bits_per_sample / 8) as nat
}

/// The number of whole frames in the data chunk that lie within the file.
pub open spec fn frame_count(d: Seq<u8>, m: WavMeta) -> nat {
    let avail: nat = if m.data_size <= d.len() - m.data_offset { m.data_size as nat } else { (d.len() - m.data_offset) as nat };
    avail / frame_bytes(m)
}

/// Channel `c` of frame `f`, scaled to 16 bits.
pub open spec fn channel_sample(d: Seq<u8>, m: WavMeta, f: int, c: int) -> i16 {
    let bps = (m.bits_per_sample / 8) as int;
    spec_to_i16(spec_read_sample(d, m.data_offset + f * frame_bytes(m) + c * bps, m.bits_per_sample), m.bits_per_sample)
}

/// The sum of the first `k` channels of frame `f`.
pub open spec fn channel_sum(d: Seq<u8>, m: WavMeta, f: int, k: int) -> int
    decreases k,
{
    if k <= 0 { 0 } else { channel_sum(d, m, f, k - 1) + channel_sample(d, m, f, k - 1) }
}

/// The left output sample of frame `f`: mono and stereo keep their first channel, up to
/// eight channels are averaged, and a wider layout averages its first half.
pub open spec fn left_sample(d: Seq<u8>, m: WavMeta, f: int) -> i16 {
    let n = m.channels as int;
    if n <= 2 {
        channel_sample(d, m, f, 0)
    } else if n <= 8 {
        tdiv(channel_sum(d, m, f, n), n) as i16
    } else {
        tdiv(channel_sum(d, m, f, n / 2), n / 2) as i16
    }
}

/// The right output sample of frame `f`: the last channel, or for more than eight
/// channels the average of the second half.
pub open spec fn right_sample(d: Seq<u8>, m: WavMeta, f: int) -> i16 {
    let n = m.channels as int;
    if n <= 8 {
        channel_sample(d, m, f, n - 1)
    } else {
        tdiv(channel_sum(d, m, f, n) - channel_sum(d, m, f, n / 2), n - n / 2) as i16
    }
}

/// The decoded stereo samples, interleaved.
pub open spec fn decoded_samples(d: Seq<u8>, m: WavMeta) -> Seq<i16> {
    Seq::new(2 * frame_count(d, m), |i: int| if i % 2 == 0 { left_sample(d, m, i / 2) } else { right_sample(d, m, i / 2) })
}

/// What `decode_wav` returns for the bytes `d`.
pub open spec fn decode_result(d: Seq<u8>, res: Result<PcmBuffer, AudioError>) -> bool {
    match spec_parse_wav(d) {
        Err(e) => res == Err::<PcmBuffer, AudioError>(e),
        Ok(m) => if !pcm_bits_ok(m) {
            res == Err::<PcmBuffer, AudioError>(AudioError::NotPcm)
        } else if frame_count(d, m) == 0 {
            res == Err::<PcmBuffer, AudioError>(AudioError::DecodeError)
        } else {
            res matches Ok(p) && p.sample_rate == m.sample_rate && p.channels == HDA_CHANNELS
                && p.samples@ == decoded_samples(d, m)
        },
    }
}

proof fn lemma_sum_bound(d: Seq<u8>, m: WavMeta, f: int, a: int, k: int)
    requires
        0 <= a <= k,
    ensures
        -32768 * (k - a) <= channel_sum(d, m, f, k) - channel_sum(d, m, f, a) <= 32767 * (k - a),
    decreases k,
{
    if k > a {
        lemma_sum_bound(d, m, f, a, k - 1);
    }
}

/// The truncating average of `sum` over `cnt` samples, as a 16-bit sample.
fn average(sum: i32, cnt: i32) -> (res: i16)
    requires
        1 <= cnt <= 65535,
        -32768 * cnt <= sum <= 32767 * cnt,
    ensures
        res == tdiv(sum as int, cnt as int) as i16,
{
    let avg: i32 = if sum >= 0 { sum / cnt } else { -((-sum) / cnt) };
    proof {
        if sum >= 0 {
            assert(sum / cnt <= 32767) by (nonlinear_arith)
                requires sum <= 32767 * cnt, cnt >= 1, sum >= 0;
        } else {
            let ms: int = -(sum as int);
            assert(ms / (cnt as int) <= 32768) by (nonlinear_arith)
                requires ms <= 32768 * cnt, cnt >= 1, ms > 0;
        }
    }
    avg as i16
}

/// Decodes a whole WAV file to 16-bit stereo; mono is duplicated to both channels and
/// more than two channels are mixed down.
pub fn decode_wav(data: &[u8]) -> (res: Result<PcmBuffer, AudioError>)
    requires
        data@.len() * 1000 <= u64::MAX,
    ensures
        decode_result(data@, res),
{
    let ghost d = data@;
    let n = data.len();
    proof { lemma_meta_bounds(data@); }
    let meta = match parse_wav(data) {
        Ok(m) => m,
        Err(e) => return Err(e),
    };
    if !meta.is_pcm {
        return Err(AudioError::NotPcm);
    }
    if !(meta.bits_per_sample == 8 || meta.bits_per_sample == 16 || meta.bits_per_sample == 24
        || meta.bits_per_sample == 32) {
        return Err(AudioError::NotPcm);
    }
    let bytes_per_sample: usize = (meta.bits_per_sample / 8) as usize;
    let channels_in: usize = meta.channels as usize;
    assert(channels_in * bytes_per_sample <= 65535 * 4) by (nonlinear_arith)
        requires channels_in <= 65535, bytes_per_sample <= 4;
    let bytes_per_frame: usize = channels_in * bytes_per_sample;
    proof {
        assert(meta.data_offset <= data@.len());
        assert(bytes_per_frame == frame_bytes(meta));
        assert(meta.channels != 0);
        assert(bytes_per_frame >= 1) by (nonlinear_arith)
            requires bytes_per_frame == channels_in * bytes_per_sample, channels_in >= 1, bytes_per_sample >= 1;
    }
    let available: usize = if meta.data_size <= data.len() - meta.data_offset {
        meta.data_size
    } else {
        data.len() - meta.data_offset
    };
    let frames: usize = available / bytes_per_frame;
    if frames == 0 {
        return Err(AudioError::DecodeError);
    }
    proof {
        assert(frames * bytes_per_frame <= available) by (nonlinear_arith)
            requires frames == available / bytes_per_frame, bytes_per_frame >= 1;
    }
    let mut samples: Vec<i16> = Vec::new();
    let mut off: usize = meta.data_offset;
    let mut f: usize = 0;
    while f < frames
        invariant
            d == data@,
            n == data@.len(),
            pcm_bits_ok(meta),
            spec_parse_wav(d) == Ok::<WavMeta, AudioError>(meta),
            1 <= channels_in <= 65535,
            channels_in == meta.channels,
            bytes_per_sample == meta.bits_per_sample / 8,
            bytes_per_frame == frame_bytes(meta),
            frames == frame_count(d, meta),
            frames * bytes_per_frame <= data@.len() - meta.data_offset,
            f <= frames,
            off == meta.data_offset + f * bytes_per_frame,
            samples@.len() == 2 * f,
            forall|i: int| 0 <= i < 2 * f ==> samples@[i] == decoded_samples(d, meta)[i],
        decreases frames - f,
    {
        proof {
            assert((f + 1) * bytes_per_frame <= frames * bytes_per_frame) by (nonlinear_arith)
                requires f < frames;
            assert(off + bytes_per_frame <= data@.len()) by (nonlinear_arith)
                requires off == meta.data_offset + f * bytes_per_frame,
                    (f + 1) * bytes_per_frame <= frames * bytes_per_frame,
                    frames * bytes_per_frame <= data@.len() - meta.data_offset;
        }
        let mut frame_samples: Vec<i16> = Vec::new();
        let mut c: usize = 0;
        while c < channels_in
            invariant
                d == data@,
                n == data@.len(),
                pcm_bits_ok(meta),
                channels_in == meta.channels,
                bytes_per_sample == meta.bits_per_sample / 8,
                bytes_per_frame == channels_in * bytes_per_sample,
                off + bytes_per_frame <= data@.len(),
                off == meta.data_offset + f * frame_bytes(meta),
                c <= channels_in,
                frame_samples@.len() == c,
                forall|k: int| 0 <= k < c ==> frame_samples@[k] == channel_sample(d, meta, f as int, k),
            decreases channels_in - c,
        {
            proof {
                assert(c * bytes_per_sample + bytes_per_sample <= bytes_per_frame) by (nonlinear_arith)
                    requires c < channels_in, bytes_per_frame == channels_in * bytes_per_sample;
            }
            let s = read_sample_le(data, off + c * bytes_per_sample, meta.bits_per_sample);
            frame_samples.push(sample_to_i16(s, meta.bits_per_sample));
            c = c + 1;
        }
        let ghost old_samples = samples@;
        if channels_in == 1 {
            samples.push(frame_samples[0]);
            samples.push(frame_samples[0]);
        } else if channels_in == 2 {
            samples.push(frame_samples[0]);
            samples.push(frame_samples[1]);
        } else if channels_in <= 8 {
            let mut l: i32 = 0;
            let mut k: usize = 0;
            while k < channels_in
                invariant
                    k <= channels_in <= 8,
                    frame_samples@.len() == channels_in,
                    forall|j: int| 0 <= j < channels_in ==> frame_samples@[j] == channel_sample(d, meta, f as int, j),
                    l == channel_sum(d, meta, f as int, k as int),
                decreases channels_in - k,
            {
                proof { lemma_sum_bound(d, meta, f as int, 0, k as int); }
                l = l + frame_samples[k] as i32;
                k = k + 1;
            }
            proof { lemma_sum_bound(d, meta, f as int, 0, channels_in as int); }
            samples.push(average(l, channels_in as i32));
            samples.push(frame_samples[channels_in - 1]);
        } else {
            let half: usize = channels_in / 2;
            let mut l: i32 = 0;
            let mut k: usize = 0;
            while k < half
                invariant
                    k <= half,
                    half == channels_in / 2,
                    channels_in <= 65535,
                    frame_samples@.len() == channels_in,
                    forall|j: int| 0 <= j < channels_in ==> frame_samples@[j] == channel_sample(d, meta, f as int, j),
                    l == channel_sum(d, meta, f as int, k as int),
                decreases half - k,
            {
                proof { lemma_sum_bound(d, meta, f as int, 0, k as int); }
                l = l + frame_samples[k] as i32;
                k = k + 1;
            }
            let mut r: i32 = 0;
            while k < channels_in
                invariant
                    half <= k <= channels_in <= 65535,
                    half == channels_in / 2,
                    frame_samples@.len() == channels_in,
                    forall|j: int| 0 <= j < channels_in ==> frame_samples@[j] == channel_sample(d, meta, f as int, j),
                    r == channel_sum(d, meta, f as int, k as int) - channel_sum(d, meta, f as int, half as int),
                decreases channels_in - k,
            {
                proof { lemma_sum_bound(d, meta, f as int, half as int, k as int); }
                r = r + frame_samples[k] as i32;
                k = k + 1;
            }
            proof {
                lemma_sum_bound(d, meta, f as int, 0, half as int);
                lemma_sum_bound(d, meta, f as int, half as int, channels_in as int);
            }
            samples.push(average(l, half as i32));
            samples.push(average(r, (channels_in - half) as i32));
        }
        proof {
            assert forall|i: int| 0 <= i < 2 * (f + 1) implies samples@[i] == decoded_samples(d, meta)[i] by {
                if i >= 2 * f {
                    assert(i / 2 == f);
                }
            }
            assert(off + bytes_per_frame == meta.data_offset + (f + 1) * bytes_per_frame) by (nonlinear_arith)
                requires off == meta.data_offset + f * bytes_per_frame;
        }
        off = off + bytes_per_frame;
        f = f + 1;
    }
    assert(samples@ =~= decoded_samples(d, meta));
    Ok(PcmBuffer { samples, sample_rate: meta.sample_rate, channels: HDA_CHANNELS })
}

} // verus!
