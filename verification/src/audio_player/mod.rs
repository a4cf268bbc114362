//! Audio file handling: format detection, WAV decoding to 16-bit stereo PCM and
//! MP3 header inspection.
use vstd::prelude::*;
use crate::text::{dec, dec_pad, push_dec, push_dec_pad, push_str};

pub mod mp3;
pub mod wav;

verus! {

/// Sample rate of the sound hardware.
pub const HDA_SAMPLE_RATE: u32 = 48_000;
/// Channels of the sound hardware (stereo).
pub const HDA_CHANNELS: u16 = 2;
/// Bits per sample of the sound hardware.
pub const HDA_BITS_PER_SAMPLE: u16 = 16;
/// Size of the DMA buffer of the sound hardware.
pub const AUDIO_BUFFER_SIZE: usize = 524288;

/// Errors of the audio player.
#[derive(Debug, Clone, Copy, PartialEq, Eq, Structural)]
pub enum AudioError {
    FileNotFound,
    InvalidFormat,
    NotPcm,
    OutOfMemory,
    DriverNotReady,
    DecodeError,
}

impl AudioError {
    /// A human-readable description of the error.
    pub fn as_str(&self) -> (res: &'static str)
        ensures
            *self == AudioError::FileNotFound ==> res@ == "Archivo no encontrado o no legible"@,
            *self == AudioError::InvalidFormat ==> res@ == "Formato no soportado o archivo corrupto"@,
            *self == AudioError::NotPcm ==> res@ == "El archivo no contiene audio PCM reproducible"@,
            *self == AudioError::OutOfMemory ==> res@ == "Memoria insuficiente"@,
            *self == AudioError::DriverNotReady ==> res@ == "Driver de audio (HDA) no inicializado"@,
            *self == AudioError::DecodeError ==> res@ == "Error al decodificar el audio"@,
    {
        match self {
            AudioError::FileNotFound => "Archivo no encontrado o no legible",
            AudioError::InvalidFormat => "Formato no soportado o archivo corrupto",
            AudioError::NotPcm => "El archivo no contiene audio PCM reproducible",
            AudioError::OutOfMemory => "Memoria insuficiente",
            AudioError::DriverNotReady => "Driver de audio (HDA) no inicializado",
            AudioError::DecodeError => "Error al decodificar el audio",
        }
    }
}

/// Interleaved signed 16-bit samples (left, right, left, right, ...).
pub struct PcmBuffer {
    pub samples: Vec<i16>,
    pub sample_rate: u32,
    pub channels: u16,
}

/// Whole milliseconds of audio held by `len` interleaved samples.
pub open spec fn spec_duration_ms(len: nat, channels: nat, rate: nat) -> nat {
    if rate == 0 || channels == 0 { 0 } else { ((len / channels) * 1000) / rate }
}

impl PcmBuffer {
    /// An empty buffer in the hardware format.
    pub fn new(capacity: usize) -> (res: Self)
        ensures
            res.samples@.len() == 0,
            res.sample_rate == HDA_SAMPLE_RATE,
            res.channels == HDA_CHANNELS,
    {
        PcmBuffer { samples: Vec::with_capacity(capacity), sample_rate: HDA_SAMPLE_RATE, channels: HDA_CHANNELS }
    }

    /// The number of samples (all channels counted).
    pub fn len(&self) -> (res: usize)
        ensures
            res == self.samples@.len(),
    {
        self.samples.len()
    }

    pub fn is_empty(&self) -> (res: bool)
        ensures
            res == (self.samples@.len() == 0),
    {
        self.samples.len() == 0
    }

    /// The playing time in milliseconds.
    pub fn duration_ms(&self) -> (res: u64)
        requires
            self.samples@.len() * 1000 <= u64::MAX,
        ensures
            res == spec_duration_ms(self.samples@.len(), self.channels as nat, self.sample_rate as nat),
    {
        if self.sample_rate == 0 || self.channels == 0 {
            return 0;
        }
        let frames = (self.samples.len() as u64) / (self.channels as u64);
        assert(frames * 1000 <= u64::MAX) by (nonlinear_arith)
            requires frames <= self.samples@.len(), self.samples@.len() * 1000 <= u64::MAX;
        (frames * 1000) / (self.sample_rate as u64)
    }
}

/// The kinds of audio file that are recognised.
#[derive(Debug, Clone, Copy, PartialEq, Eq, Structural)]
pub enum AudioFormat {
    Wav,
    Mp3,
    Unknown,
}

impl AudioFormat {
    pub fn name(&self) -> (res: &'static str)
        ensures
            *self == AudioFormat::Wav ==> res@ == "WAV (PCM)"@,
            *self == AudioFormat::Mp3 ==> res@ == "MP3 (ADTS)"@,
            *self == AudioFormat::Unknown ==> res@ == "Desconocido"@,
    {
        match self {
            AudioFormat::Wav => "WAV (PCM)",
            AudioFormat::Mp3 => "MP3 (ADTS)",
            AudioFormat::Unknown => "Desconocido",
        }
    }
}

/// A RIFF/WAVE header: `RIFF` at 0 and `WAVE` at 8.
pub open spec fn is_riff_wave(d: Seq<u8>) -> bool {
    d.len() >= 12 && d[0] == 0x52 && d[1] == 0x49 && d[2] == 0x46 && d[3] == 0x46
        && d[8] == 0x57 && d[9] == 0x41 && d[10] == 0x56 && d[11] == 0x45
}

/// An MPEG audio frame sync: `0xFF` followed by a byte with its top three bits set.
pub open spec fn is_frame_sync(d: Seq<u8>, i: int) -> bool {
    0 <= i && i + 1 < d.len() && d[i] == 0xFF && d[i + 1] >= 0xE0
}

pub open spec fn spec_detect_format(d: Seq<u8>) -> AudioFormat {
    if is_riff_wave(d) {
        AudioFormat::Wav
    } else if is_frame_sync(d, 0) {
        AudioFormat::Mp3
    } else {
        AudioFormat::Unknown
    }
}

/// Tells WAV from MP3 by the first bytes of the file.
pub fn detect_format(data: &[u8]) -> (res: AudioFormat)
    ensures
        res == spec_detect_format(data@),
{
    if data.len() >= 12 && data[0] == 0x52 && data[1] == 0x49 && data[2] == 0x46 && data[3] == 0x46
        && data[8] == 0x57 && data[9] == 0x41 && data[10] == 0x56 && data[11] == 0x45 {
        return AudioFormat::Wav;
    }
    if data.len() >= 2 && data[0] == 0xFF && data[1] >= 0xE0 {
        return AudioFormat::Mp3;
    }
    AudioFormat::Unknown
}

/// Decodes a file's bytes to PCM in the hardware's sample format; only WAV is decoded.
pub fn load_bytes_as_pcm(data: &[u8]) -> (res: Result<PcmBuffer, AudioError>)
    requires
        data@.len() * 1000 <= u64::MAX,
    ensures
        spec_detect_format(data@) == AudioFormat::Mp3 ==> res == Err::<PcmBuffer, AudioError>(AudioError::NotPcm),
        spec_detect_format(data@) == AudioFormat::Unknown ==> res == Err::<PcmBuffer, AudioError>(AudioError::InvalidFormat),
        spec_detect_format(data@) == AudioFormat::Wav ==> wav::decode_result(data@, res),
{
    match detect_format(data) {
        AudioFormat::Wav => wav::decode_wav(data),
        AudioFormat::Mp3 => Err(AudioError::NotPcm),
        AudioFormat::Unknown => Err(AudioError::InvalidFormat),
    }
}

/// The little-endian bytes of one sample.
pub open spec fn sample_bytes(s: i16) -> Seq<u8> {
    let v = if s < 0 { s + 65536 } else { s as int };
    seq![(v % 256) as u8, (v / 256) as u8]
}

/// The little-endian bytes of a run of samples.
pub open spec fn samples_bytes(s: Seq<i16>) -> Seq<u8>
    decreases s.len(),
{
    if s.len() == 0 { Seq::empty() } else { samples_bytes(s.drop_last()) + sample_bytes(s.last()) }
}

/// Writes the samples as interleaved little-endian 16-bit bytes into `out`, replacing
/// what it held.
pub fn chunk_to_bytes(samples: &[i16], out: &mut Vec<u8>)
    ensures
        final(out)@ == samples_bytes(samples@),
{
    out.clear();
    let mut i: usize = 0;
    while i < samples.len()
        invariant
            i <= samples@.len(),
            out@ == samples_bytes(samples@.subrange(0, i as int)),
        decreases samples@.len() - i,
    {
        let s = samples[i];
        let v: u32 = if s < 0 { (s as i32 + 65536) as u32 } else { s as u32 };
        out.push((v % 256) as u8);
        out.push((v / 256) as u8);
        proof {
            let sub = samples@.subrange(0, i + 1);
            assert(sub.drop_last() =~= samples@.subrange(0, i as int));
        }
        i = i + 1;
        assert(out@ =~= samples_bytes(samples@.subrange(0, i as int)));
    }
    assert(samples@.subrange(0, samples@.len() as int) =~= samples@);
}

/// The same bytes in a new vector.
pub fn samples_to_bytes(samples: &[i16]) -> (res: Vec<u8>)
    ensures
        res@ == samples_bytes(samples@),
{
    let mut out: Vec<u8> = Vec::new();
    chunk_to_bytes(samples, &mut out);
    out
}

/// The report on a WAV header.
pub open spec fn wav_report(m: wav::WavMeta) -> Seq<char> {
    "  Formato:   WAV ("@ + (if m.is_pcm { "PCM"@ } else { "Comprimido"@ }) + ")\n  Sample rate: "@
        + dec(m.sample_rate as nat) + " Hz\n  Canales:    "@ + dec(m.channels as nat)
        + "\n  Bits:       "@ + dec(m.bits_per_sample as nat) + "\n  Duración:   "@
        + dec((m.duration_ms / 1000) as nat) + "."@ + dec_pad((m.duration_ms % 1000) as nat, 3)
        + " s\n  Datos:      "@ + dec(m.data_size as nat) + " bytes\n"@
}

/// The report on an MP3 header.
pub open spec fn mp3_report(m: mp3::Mp3Meta) -> Seq<char> {
    "  Formato:   MP3 (ADTS, Layer III)\n  Sample rate: "@ + dec(m.sample_rate as nat)
        + " Hz\n  Canales:    "@ + dec(m.channels as nat) + "\n  Bitrate:    "@
        + dec(m.bitrate_kbps as nat) + " kbps\n  Duración:   "@ + dec((m.duration_ms / 1000) as nat)
        + "."@ + dec_pad((m.duration_ms % 1000) as nat, 3) + " s\n  Frames:     "@
        + dec(m.num_frames_estimate as nat)
        + "\n  Pista: usa ffmpeg para convertir a WAV 48kHz/16-bit/estéreo\n"@
}

/// The report that `inspect_file` gives for a file's bytes.
pub open spec fn spec_inspect(d: Seq<u8>) -> Result<Seq<char>, AudioError> {
    match spec_detect_format(d) {
        AudioFormat::Wav => match wav::spec_parse_wav(d) {
            Ok(m) => Ok(wav_report(m)),
            Err(e) => Err(e),
        },
        AudioFormat::Mp3 => match mp3::spec_parse_mp3(d) {
            Ok(m) => Ok(mp3_report(m)),
            Err(e) => Err(e),
        },
        AudioFormat::Unknown => Err(AudioError::InvalidFormat),
    }
}

/// Describes the metadata of an audio file (given its bytes) in a few lines.
pub fn inspect_file(data: &[u8]) -> (res: Result<String, AudioError>)
    requires
        data@.len() * 1000 <= u64::MAX,
    ensures
        match res {
            Ok(s) => spec_inspect(data@) == Ok::<Seq<char>, AudioError>(s@),
            Err(e) => spec_inspect(data@) == Err::<Seq<char>, AudioError>(e),
        },
{
    match detect_format(data) {
        AudioFormat::Wav => {
            let meta = match wav::parse_wav(data) {
                Ok(m) => m,
                Err(e) => return Err(e),
            };
            let mut s = String::new();
            push_str(&mut s, "  Formato:   WAV (");
            push_str(&mut s, if meta.is_pcm { "PCM" } else { "Comprimido" });
            push_str(&mut s, ")\n  Sample rate: ");
            push_dec(&mut s, meta.sample_rate as u64);
            push_str(&mut s, " Hz\n  Canales:    ");
            push_dec(&mut s, meta.channels as u64);
            push_str(&mut s, "\n  Bits:       ");
            push_dec(&mut s, meta.bits_per_sample as u64);
            push_str(&mut s, "\n  Duración:   ");
            push_dec(&mut s, meta.duration_ms / 1000);
            push_str(&mut s, ".");
            push_dec_pad(&mut s, meta.duration_ms % 1000, 3);
            push_str(&mut s, " s\n  Datos:      ");
            push_dec(&mut s, meta.data_size as u64);
            push_str(&mut s, " bytes\n");
            assert(s@ =~= wav_report(meta));
            Ok(s)
        },
        AudioFormat::Mp3 => {
            let meta = match mp3::parse_mp3(data) {
                Ok(m) => m,
                Err(e) => return Err(e),
            };
            let mut s = String::new();
            push_str(&mut s, "  Formato:   MP3 (ADTS, Layer III)\n  Sample rate: ");
            push_dec(&mut s, meta.sample_rate as u64);
            push_str(&mut s, " Hz\n  Canales:    ");
            push_dec(&mut s, meta.channels as u64);
            push_str(&mut s, "\n  Bitrate:    ");
            push_dec(&mut s, meta.bitrate_kbps as u64);
            push_str(&mut s, " kbps\n  Duración:   ");
            push_dec(&mut s, meta.duration_ms / 1000);
            push_str(&mut s, ".");
            push_dec_pad(&mut s, meta.duration_ms % 1000, 3);
            push_str(&mut s, " s\n  Frames:     ");
            push_dec(&mut s, meta.num_frames_estimate);
            push_str(&mut s, "\n  Pista: usa ffmpeg para convertir a WAV 48kHz/16-bit/estéreo\n");
            assert(s@ =~= mp3_report(meta));
            Ok(s)
        },
        AudioFormat::Unknown => Err(AudioError::InvalidFormat),
    }
}

/// The short description of a WAV file: an empty string when its header reads, nothing
/// otherwise.
pub fn describe(data: &[u8]) -> (res: Option<String>)
    requires
        data@.len() * 1000 <= u64::MAX,
    ensures
        wav::spec_parse_wav(data@) is Ok ==> (res matches Some(s) && s@.len() == 0),
        wav::spec_parse_wav(data@) is Err ==> res is None,
{
    match wav::parse_wav(data) {
        Ok(_) => Some(String::new()),
        Err(_) => None,
    }
}

/// Bytes of PCM sent to the sound hardware per chunk.
pub const CHUNK_BYTES: usize = 524288;

/// Output frames when `frames_in` frames at `src` Hz are resampled to `tgt` Hz.
pub fn resample_frames(frames_in: u64, src: u32, tgt: u32) -> (res: u64)
    requires
        src > 0,
        frames_in * tgt <= u64::MAX,
    ensures
        res == frames_in * tgt / (src as int),
{
    frames_in * tgt as u64 / src as u64
}

/// Where output frame `i` reads its input when resampling `src` Hz to `tgt` Hz over
/// `frames_in` input frames: the frame at or before its exact position, the next one
/// (both kept inside the input), and the remainder of the position's numerator, which
/// over `tgt` is the interpolation weight of the next frame.
pub open spec fn spec_source(i: int, src: int, tgt: int, frames_in: int) -> (int, int, int) {
    let exact = i * src / tgt;
    let pos = if exact > frames_in - 1 { frames_in - 1 } else { exact };
    let next = if pos + 1 > frames_in - 1 { frames_in - 1 } else { pos + 1 };
    (pos, next, i * src % tgt)
}

pub fn source_frame(i: u64, src: u32, tgt: u32, frames_in: u64) -> (res: (u64, u64, u64))
    requires
        tgt > 0,
        frames_in > 0,
        i * src <= u64::MAX,
    ensures
        res.0 == spec_source(i as int, src as int, tgt as int, frames_in as int).0,
        res.1 == spec_source(i as int, src as int, tgt as int, frames_in as int).1,
        res.2 == spec_source(i as int, src as int, tgt as int, frames_in as int).2,
        res.0 < frames_in && res.1 < frames_in,
{
    let num = i * src as u64;
    let exact = num / tgt as u64;
    let pos = if exact > frames_in - 1 { frames_in - 1 } else { exact };
    let next = if pos + 1 > frames_in - 1 { frames_in - 1 } else { pos + 1 };
    (pos, next, num % tgt as u64)
}

/// How a PCM buffer is streamed to the sound hardware.
#[derive(Debug, Clone, Copy, PartialEq, Eq, Structural)]
pub struct StreamPlan {
    pub total_input_frames: u64,
    pub total_output_frames: u64,
    pub frames_per_chunk: u64,
    pub total_chunks: u64,
}

/// Checks a buffer for streaming and plans its chunks: stereo only, at least one
/// frame; input at another rate is resampled to 48 kHz on the way; each chunk holds
/// `CHUNK_BYTES` of 16-bit stereo output.
pub fn stream_plan(samples_len: usize, channels: u16, source_rate: u32) -> (res: Result<StreamPlan, AudioError>)
    requires
        source_rate > 0,
        samples_len * 48000 <= u64::MAX,
    ensures
        match res {
            Ok(p) => {
                &&& samples_len > 0 && channels == 2 && samples_len / 2 > 0
                &&& p.total_input_frames == samples_len / 2
                &&& p.frames_per_chunk == 131072
                &&& p.total_output_frames == if source_rate == 48000 { (samples_len / 2) as int } else { (samples_len / 2) * 48000 / (source_rate as int) }
                &&& p.total_chunks == (p.total_output_frames + 131071) / 131072
            },
            Err(e) => (samples_len == 0 && e == AudioError::DecodeError)
                || (samples_len > 0 && channels != 2 && e == AudioError::NotPcm)
                || (samples_len == 1 && channels == 2 && e == AudioError::DecodeError),
        },
{
    if samples_len == 0 {
        return Err(AudioError::DecodeError);
    }
    if channels != HDA_CHANNELS {
        return Err(AudioError::NotPcm);
    }
    let frames_in = samples_len as u64 / 2;
    if frames_in == 0 {
        return Err(AudioError::DecodeError);
    }
    let per_chunk: u64 = (CHUNK_BYTES / 4) as u64;
    let total_out = if source_rate == HDA_SAMPLE_RATE { frames_in } else { resample_frames(frames_in, source_rate, HDA_SAMPLE_RATE) };
    assert(total_out <= frames_in * 48000) by (nonlinear_arith)
        requires
            total_out == frames_in || total_out == frames_in * 48000 / (source_rate as int),
            source_rate > 0,
    ;
    let chunks = (total_out + per_chunk - 1) / per_chunk;
    Ok(StreamPlan { total_input_frames: frames_in, total_output_frames: total_out, frames_per_chunk: per_chunk, total_chunks: chunks })
}

/// Output frames in the chunk that starts at output frame `done`.
pub fn chunk_frames(plan: &StreamPlan, done: u64) -> (res: u64)
    requires
        done <= plan.total_output_frames,
    ensures
        res == if plan.frames_per_chunk < plan.total_output_frames - done { plan.frames_per_chunk as int } else { plan.total_output_frames - done },
{
    let left = plan.total_output_frames - done;
    if plan.frames_per_chunk < left { plan.frames_per_chunk } else { left }
}

} // verus!
