//! MPEG audio (Layer III) header inspection; MP3 data is not decoded.
use vstd::prelude::*;
use super::{is_frame_sync, AudioError};
use super::wav::be32;

verus! {

/// What the first frame header of an MP3 file says, with an estimate of its length.
#[derive(Debug, Clone, Copy, PartialEq, Eq, Structural)]
pub struct Mp3Meta {
    pub sample_rate: u32,
    pub channels: u16,
    pub bitrate_kbps: u32,
    pub frame_size: u16,
    pub duration_ms: u64,
    pub num_frames_estimate: u64,
}

/// Sample rates (Hz) of MPEG-1 by index; index 3 is reserved.
pub open spec fn mpeg1_sample_rate(i: nat) -> u32 {
    if i == 0 { 44100 } else if i == 1 { 48000 } else if i == 2 { 32000 } else { 0 }
}

/// Layer III bit rates (kbit/s) of MPEG-1 by index; 0 and 15 are invalid.
pub open spec fn mpeg1_l3_bitrate(i: nat) -> u32 {
    if i == 1 { 32 } else if i == 2 { 40 } else if i == 3 { 48 } else if i == 4 { 56 }
    else if i == 5 { 64 } else if i == 6 { 80 } else if i == 7 { 96 } else if i == 8 { 112 }
    else if i == 9 { 128 } else if i == 10 { 160 } else if i == 11 { 192 } else if i == 12 { 224 }
    else if i == 13 { 256 } else if i == 14 { 320 } else { 0 }
}

fn sample_rate_of(i: u8) -> (r: u32)
    ensures
        r == mpeg1_sample_rate(i as nat),
{
    if i == 0 { 44100 } else if i == 1 { 48000 } else if i == 2 { 32000 } else { 0 }
}

fn bitrate_of(i: u8) -> (r: u32)
    ensures
        r == mpeg1_l3_bitrate(i as nat),
{
    if i == 1 { 32 } else if i == 2 { 40 } else if i == 3 { 48 } else if i == 4 { 56 }
    else if i == 5 { 64 } else if i == 6 { 80 } else if i == 7 { 96 } else if i == 8 { 112 }
    else if i == 9 { 128 } else if i == 10 { 160 } else if i == 11 { 192 } else if i == 12 { 224 }
    else if i == 13 { 256 } else if i == 14 { 320 } else { 0 }
}

/// The first position from `i` holding a frame sync, or the last byte when there is none.
pub open spec fn first_sync(d: Seq<u8>, i: nat) -> nat
    decreases d.len() - i,
{
    if i + 1 >= d.len() {
        i
    } else if is_frame_sync(d, i as int) {
        i
    } else {
        first_sync(d, i + 1)
    }
}

/// The 10-bit frame length of the header at `p`.
pub open spec fn frame_len_at(d: Seq<u8>, p: int) -> nat {
    ((d[p + 3] % 4) * 256 + d[p + 4]) as nat
}

/// Counts the frames from `pos`: a sync with a plausible length is skipped as a whole,
/// other bytes one by one; counting stops at an implausible frame or past 100 000 frames.
pub open spec fn count_frames(d: Seq<u8>, pos: nat, count: nat) -> nat
    decreases d.len() - pos,
{
    if pos + 7 >= d.len() {
        count
    } else if is_frame_sync(d, pos as int) {
        let fl = frame_len_at(d, pos as int);
        if fl < 7 || pos + fl > d.len() {
            count
        } else if count + 1 > 100_000 {
            count + 1
        } else {
            count_frames(d, pos + fl, count + 1)
        }
    } else {
        count_frames(d, pos + 1, count)
    }
}

/// The header of an MP3 file, or why it is refused.
pub open spec fn spec_parse_mp3(d: Seq<u8>) -> Result<Mp3Meta, AudioError> {
    if d.len() < 7 {
        Err(AudioError::InvalidFormat)
    } else {
        let start = first_sync(d, 0);
        if start + 7 > d.len() {
            Err(AudioError::InvalidFormat)
        } else {
            let b0 = d[start + 1int];
            let b1 = d[start + 2int];
            let b2 = d[start + 3int];
            if (b0 / 2) % 4 != 1 {
                Err(AudioError::InvalidFormat)
            } else {
                let rate = mpeg1_sample_rate((b2 / 64) as nat);
                if rate == 0 {
                    Err(AudioError::InvalidFormat)
                } else {
                    let config = (b1 % 2) * 4 + b2 / 64;
                    let frames = count_frames(d, start, 0);
                    Ok(Mp3Meta {
                        sample_rate: rate,
                        channels: if config == 0 { 0 } else if config == 1 { 1 } else { 2 },
                        bitrate_kbps: mpeg1_l3_bitrate(((b1 / 4) % 16) as nat),
                        frame_size: frame_len_at(d, start as int) as u16,
                        duration_ms: ((frames * 1152 * 1000) / rate as nat) as u64,
                        num_frames_estimate: frames as u64,
                    })
                }
            }
        }
    }
}

proof fn lemma_count_bound(d: Seq<u8>, pos: nat, count: nat)
    requires
        count <= 100_000,
    ensures
        count <= count_frames(d, pos, count) <= 100_001,
    decreases d.len() - pos,
{
    if pos + 7 < d.len() {
        if is_frame_sync(d, pos as int) {
            let fl = frame_len_at(d, pos as int);
            if !(fl < 7 || pos + fl > d.len()) && count + 1 <= 100_000 {
                lemma_count_bound(d, pos + fl, count + 1);
            }
        } else {
            lemma_count_bound(d, pos + 1, count);
        }
    }
}

/// Reads the first frame header and estimates the length from the number of frames.
pub fn parse_mp3(data: &[u8]) -> (res: Result<Mp3Meta, AudioError>)
    ensures
        res == spec_parse_mp3(data@),
{
    let ghost d = data@;
    let n = data.len();
    if n < 7 {
        return Err(AudioError::InvalidFormat);
    }
    let mut start: usize = 0;
    while start + 1 < n
        invariant
            n == data@.len(),
            d == data@,
            start < n,
            first_sync(d, start as nat) == first_sync(d, 0),
        ensures
            start == first_sync(d, 0),
        decreases n - start,
    {
        if data[start] == 0xFF && data[start + 1] >= 0xE0 {
            break;
        }
        start = start + 1;
    }
    if start > n - 7 {
        return Err(AudioError::InvalidFormat);
    }
    let b0 = data[start + 1];
    let layer = (b0 / 2) % 4;
    if layer != 1 {
        return Err(AudioError::InvalidFormat);
    }
    let b1 = data[start + 2];
    let bitrate_index = (b1 / 4) % 16;
    let b2 = data[start + 3];
    let sample_rate = sample_rate_of(b2 / 64);
    if sample_rate == 0 {
        return Err(AudioError::InvalidFormat);
    }
    let bitrate_kbps = bitrate_of(bitrate_index);
    let channel_config: u16 = ((b1 % 2) as u16) * 4 + (b2 / 64) as u16;
    let channels: u16 = if channel_config == 0 { 0 } else if channel_config == 1 { 1 } else { 2 };
    let frame_length: u16 = ((data[start + 3] % 4) as u16) * 256 + data[start + 4] as u16;

    let mut pos: usize = start;
    let mut frame_count: u64 = 0;
    while pos < n - 7
        invariant_except_break
            n == data@.len(),
            n >= 7,
            d == data@,
            pos <= n,
            frame_count <= 100_000,
            count_frames(d, pos as nat, frame_count as nat) == count_frames(d, start as nat, 0),
        ensures
            frame_count == count_frames(d, start as nat, 0),
        decreases n - pos,
    {
        if data[pos] == 0xFF && data[pos + 1] >= 0xE0 {
            let fl: usize = ((data[pos + 3] % 4) as usize) * 256 + data[pos + 4] as usize;
            if fl < 7 || fl > n - pos {
                break;
            }
            pos = pos + fl;
            frame_count = frame_count + 1;
        } else {
            pos = pos + 1;
        }
        if frame_count > 100_000 {
            break;
        }
    }
    proof { lemma_count_bound(d, start as nat, 0); }
    let duration_ms: u64 = (frame_count * 1152 * 1000) / (sample_rate as u64);
    Ok(Mp3Meta {
        sample_rate,
        channels,
        bitrate_kbps,
        frame_size: frame_length,
        duration_ms,
        num_frames_estimate: frame_count,
    })
}

/// Reads a big-endian 32-bit value.
pub fn read_u32_be_safe(data: &[u8], off: usize) -> (res: u32)
    requires
        off + 4 <= data@.len(),
    ensures
        res == be32(data@, off as int),
{
    super::wav::read_u32_be_safe(data, off)
}

proof fn lemma_top_bits(b: u8)
    ensures
        b >> 6u8 == b / 64,
        (b >> 1u8) & 3 == (b / 2) % 4,
        (b >> 2u8) & 0x0F == (b / 4) % 16,
        b & 1 == b % 2,
        b & 3 == b % 4,
{
    assert(b >> 6u8 == b / 64) by (bit_vector);
    assert((b >> 1u8) & 3 == (b / 2) % 4) by (bit_vector);
    assert((b >> 2u8) & 0x0F == (b / 4) % 16) by (bit_vector);
    assert(b & 1 == b % 2) by (bit_vector);
    assert(b & 3 == b % 4) by (bit_vector);
}

/// The Layer III bit rates (kbit/s) of MPEG-1, listed by index.
pub open spec fn l3_bitrates() -> Seq<u32> {
    seq![0u32, 32, 40, 48, 56, 64, 80, 96, 112, 128, 160, 192, 224, 256, 320, 0]
}

/// The other fields of the first frame header: the bit rate is indexed by bits 5..2 of
/// its second byte, the channel configuration is the low bit of that byte above the top
/// two bits of the third (0: none, 1: mono, more: stereo), the frame length is the low
/// two bits of the third byte above the fourth; the duration is the frames counted times
/// 1152 samples at the sample rate.
pub proof fn law_mp3_header_fields(d: Seq<u8>)
    ensures
        spec_parse_mp3(d) matches Ok(m) ==> ({
            let s = first_sync(d, 0) as int;
            let b1 = d[s + 2];
            let b2 = d[s + 3];
            let config = ((b1 & 1) as int) * 4 + (b2 >> 6u8) as int;
            &&& m.bitrate_kbps == l3_bitrates()[((b1 >> 2u8) & 0x0F) as int]
            &&& m.channels == (if config == 0 { 0u16 } else if config == 1 { 1u16 } else { 2u16 })
            &&& m.frame_size == ((b2 & 3) as int) * 256 + d[s + 4] as int
            &&& m.duration_ms == m.num_frames_estimate * 1152 * 1000 / (m.sample_rate as int)
        }),
{
    if d.len() >= 7 && first_sync(d, 0) + 7 <= d.len() {
        lemma_top_bits(d[first_sync(d, 0) + 2int]);
        lemma_top_bits(d[first_sync(d, 0) + 3int]);
        lemma_count_bound(d, first_sync(d, 0), 0);
    }
}

/// The sample rate of an MPEG-1 Layer III stream comes from the top two bits of the
/// third byte of its first frame header: `00` gives 44 100 Hz, `01` 48 000 Hz, `10`
/// 32 000 Hz, and `11` (reserved) makes the file refused.
pub proof fn law_mp3_sample_rate(d: Seq<u8>)
    ensures
        spec_parse_mp3(d) matches Ok(m) ==> ({
            let b = d[first_sync(d, 0) + 3int];
            &&& b >> 6u8 != 3
            &&& b >> 6u8 == 0 ==> m.sample_rate == 44100
            &&& b >> 6u8 == 1 ==> m.sample_rate == 48000
            &&& b >> 6u8 == 2 ==> m.sample_rate == 32000
        }),
        d.len() >= 7 && first_sync(d, 0) + 7 <= d.len() && (d[first_sync(d, 0) + 1int] >> 1u8) & 3 == 1
            && d[first_sync(d, 0) + 3int] >> 6u8 == 3 ==> spec_parse_mp3(d) is Err,
{
    if d.len() >= 7 && first_sync(d, 0) + 7 <= d.len() {
        lemma_top_bits(d[first_sync(d, 0) + 3int]);
        lemma_top_bits(d[first_sync(d, 0) + 1int]);
    }
}

} // verus!
