//! Intel High Definition Audio: codec verbs, the CORB/RIRB pointers, the output
//! stream's buffer descriptor list and registers, and how the codec's widgets are set
//! up for playback at a given volume.
//!
//! Register and DMA accesses are the caller's; this module computes what to write.
use vstd::prelude::*;
use crate::text::{alt_hex, dec, push_alt_hex, push_dec, push_str};

verus! {

pub const HDA_GCAP: usize = 0x00;
pub const HDA_GCTL: usize = 0x08;
pub const HDA_STATESTS: usize = 0x0E;
pub const HDA_CORBWP: usize = 0x48;
pub const HDA_RIRBWP: usize = 0x58;
pub const HDA_RIRBSTS: usize = 0x5D;
/// Bytes of the cyclic audio buffer: 128 pages.
pub const AUDIO_BUFFER_BYTES: usize = 524288;
pub const BDL_ENTRIES: usize = 128;
/// 48 kHz, 16-bit, two channels.
pub const STREAM_FORMAT: u16 = 0x0011;
pub const STREAM_TAG: u32 = 1;

/// A codec verb: codec address in bits 28..31, node in 20..27, the 20-bit payload below.
pub open spec fn spec_verb(codec: u8, node: u8, payload: u32) -> u32 {
    (((codec as u32) & 0xF) << 28u32) | (((node as u32) & 0xFF) << 20u32) | (payload & 0xFFFFF)
}

pub fn verb(codec: u8, node: u8, payload: u32) -> (res: u32)
    ensures
        res == spec_verb(codec, node, payload),
{
    (((codec as u32) & 0xF) << 28u32) | (((node as u32) & 0xFF) << 20u32) | (payload & 0xFFFFF)
}

/// The CORB slot the next verb goes to.
pub fn next_corb_wp(wp: u16, entries: u16) -> (res: u16)
    requires
        entries > 0,
    ensures
        res == (wp + 1) % (entries as int),
        res < entries,
{
    ((wp as u32 + 1) % entries as u32) as u16
}

/// A codec's response: the low half of the RIRB entry.
pub fn rirb_response(raw: u64) -> (res: u32)
    ensures
        res == raw % 0x1_0000_0000,
{
    (raw % 0x1_0000_0000) as u32
}

/// The number of input and output streams in GCAP (bits 8..11 and 12..15).
pub fn gcap_streams(gcap: u16) -> (res: (u16, u16))
    ensures
        res.0 == (gcap >> 8u16) & 0xF,
        res.1 == (gcap >> 12u16) & 0xF,
{
    ((gcap >> 8u16) & 0xF, (gcap >> 12u16) & 0xF)
}

/// Register offset of output stream 0: after the stream descriptors of the input streams.
pub fn output_stream_base(gcap: u16) -> (res: usize)
    ensures
        res == 0x80 + ((gcap >> 8u16) & 0xF) * 0x20,
{
    let (iss, _oss) = gcap_streams(gcap);
    0x80 + iss as usize * 0x20
}

/// Buffer descriptor `i`: page `i` of the audio buffer (address low and high halves),
/// 4096 bytes, interrupt on completion for the last one only.
pub open spec fn spec_bdl_entry(audio_phys: u64, i: nat) -> Seq<u32> {
    let phys = audio_phys + i * 4096;
    seq![(phys % 0x1_0000_0000) as u32, (phys / 0x1_0000_0000) as u32, 4096u32, if i == 127 { 1u32 } else { 0u32 }]
}

/// The words of the buffer descriptor list for the audio buffer at `audio_phys`.
pub open spec fn spec_bdl(audio_phys: u64) -> Seq<u32> {
    Seq::new(512, |w: int| spec_bdl_entry(audio_phys, (w / 4) as nat)[w % 4])
}

pub fn bdl_words(audio_phys: u64) -> (res: Vec<u32>)
    requires
        audio_phys + AUDIO_BUFFER_BYTES <= u64::MAX,
    ensures
        res@ == spec_bdl(audio_phys),
{
    let mut v: Vec<u32> = Vec::new();
    let mut i: usize = 0;
    while i < BDL_ENTRIES
        invariant
            i <= 128,
            audio_phys + AUDIO_BUFFER_BYTES <= u64::MAX,
            v@.len() == i * 4,
            forall|w: int| 0 <= w < i * 4 ==> #[trigger] v@[w] == spec_bdl_entry(audio_phys, (w / 4) as nat)[w % 4],
        decreases 128 - i,
    {
        let phys: u64 = audio_phys + i as u64 * 4096;
        v.push((phys % 0x1_0000_0000) as u32);
        v.push((phys / 0x1_0000_0000) as u32);
        v.push(4096);
        v.push(if i == 127 { 1 } else { 0 });
        proof {
            assert forall|w: int| 0 <= w < (i + 1) * 4 implies #[trigger] v@[w] == spec_bdl_entry(audio_phys, (w / 4) as nat)[w % 4] by {
                if w >= i * 4 {
                    assert(w / 4 == i as int);
                }
            }
        }
        i = i + 1;
    }
    assert(v@ =~= spec_bdl(audio_phys));
    v
}

/// A register write of the given width in bytes.
#[derive(Debug, Clone, Copy, PartialEq, Eq, Structural)]
pub struct RegWrite {
    pub offset: usize,
    pub width: u8,
    pub value: u32,
}

/// The command rings' set-up in a DMA page at `dma` (the CORB at its start, the RIRB
/// 2048 bytes in), in two parts with a pause between them for the CORB read pointer's
/// reset: both rings stopped, the CORB's address, 256 entries, its read pointer put in
/// reset; then the read pointer released and the write pointer cleared, the RIRB's
/// address, 256 entries, its write pointer reset, an interrupt every 255 responses, and
/// both rings running.
pub open spec fn spec_command_rings(dma: u64) -> (Seq<RegWrite>, Seq<RegWrite>) {
    let rirb = dma + 2048;
    (seq![
        RegWrite { offset: 0x4C, width: 1, value: 0 },
        RegWrite { offset: 0x5C, width: 1, value: 0 },
        RegWrite { offset: 0x40, width: 4, value: (dma % 0x1_0000_0000) as u32 },
        RegWrite { offset: 0x44, width: 4, value: (dma / 0x1_0000_0000) as u32 },
        RegWrite { offset: 0x4E, width: 1, value: 0x02 },
        RegWrite { offset: 0x4A, width: 2, value: 0x8000 },
    ], seq![
        RegWrite { offset: 0x4A, width: 2, value: 0 },
        RegWrite { offset: 0x48, width: 2, value: 0 },
        RegWrite { offset: 0x50, width: 4, value: (rirb % 0x1_0000_0000) as u32 },
        RegWrite { offset: 0x54, width: 4, value: (rirb / 0x1_0000_0000) as u32 },
        RegWrite { offset: 0x5E, width: 1, value: 0x02 },
        RegWrite { offset: 0x58, width: 2, value: 0x8000 },
        RegWrite { offset: 0x5A, width: 2, value: 255 },
        RegWrite { offset: 0x4C, width: 1, value: 0x02 },
        RegWrite { offset: 0x5C, width: 1, value: 0x02 },
    ])
}

pub fn command_rings(dma: u64) -> (res: (Vec<RegWrite>, Vec<RegWrite>))
    requires
        dma + 2048 <= u64::MAX,
    ensures
        (res.0@, res.1@) == spec_command_rings(dma),
{
    let rirb = dma + 2048;
    let mut a: Vec<RegWrite> = Vec::new();
    a.push(RegWrite { offset: 0x4C, width: 1, value: 0 });
    a.push(RegWrite { offset: 0x5C, width: 1, value: 0 });
    a.push(RegWrite { offset: 0x40, width: 4, value: (dma % 0x1_0000_0000) as u32 });
    a.push(RegWrite { offset: 0x44, width: 4, value: (dma / 0x1_0000_0000) as u32 });
    a.push(RegWrite { offset: 0x4E, width: 1, value: 0x02 });
    a.push(RegWrite { offset: 0x4A, width: 2, value: 0x8000 });
    let mut b: Vec<RegWrite> = Vec::new();
    b.push(RegWrite { offset: 0x4A, width: 2, value: 0 });
    b.push(RegWrite { offset: HDA_CORBWP, width: 2, value: 0 });
    b.push(RegWrite { offset: 0x50, width: 4, value: (rirb % 0x1_0000_0000) as u32 });
    b.push(RegWrite { offset: 0x54, width: 4, value: (rirb / 0x1_0000_0000) as u32 });
    b.push(RegWrite { offset: 0x5E, width: 1, value: 0x02 });
    b.push(RegWrite { offset: HDA_RIRBWP, width: 2, value: 0x8000 });
    b.push(RegWrite { offset: 0x5A, width: 2, value: 255 });
    b.push(RegWrite { offset: 0x4C, width: 1, value: 0x02 });
    b.push(RegWrite { offset: 0x5C, width: 1, value: 0x02 });
    assert(a@ =~= spec_command_rings(dma).0);
    assert(b@ =~= spec_command_rings(dma).1);
    (a, b)
}

/// The writes that configure output stream 0 at `base` after a stream reset: stream tag
/// 1 without RUN, the cyclic buffer length, last valid index 127, the format, and the
/// descriptor list's address.
pub open spec fn spec_stream_setup(base: usize, bdl_phys: u64) -> Seq<RegWrite> {
    seq![
        RegWrite { offset: base, width: 4, value: 0x10_0000 },
        RegWrite { offset: (base + 0x08) as usize, width: 4, value: 524288 },
        RegWrite { offset: (base + 0x0C) as usize, width: 2, value: 127 },
        RegWrite { offset: (base + 0x12) as usize, width: 2, value: 0x0011 },
        RegWrite { offset: (base + 0x18) as usize, width: 4, value: (bdl_phys % 0x1_0000_0000) as u32 },
        RegWrite { offset: (base + 0x1C) as usize, width: 4, value: (bdl_phys / 0x1_0000_0000) as u32 },
    ]
}

pub fn stream_setup(base: usize, bdl_phys: u64) -> (res: Vec<RegWrite>)
    requires
        base + 0x20 <= usize::MAX,
    ensures
        res@ == spec_stream_setup(base, bdl_phys),
{
    let mut v: Vec<RegWrite> = Vec::new();
    v.push(RegWrite { offset: base, width: 4, value: STREAM_TAG << 20u32 });
    v.push(RegWrite { offset: base + 0x08, width: 4, value: 524288 });
    v.push(RegWrite { offset: base + 0x0C, width: 2, value: 127 });
    v.push(RegWrite { offset: base + 0x12, width: 2, value: 0x0011 });
    v.push(RegWrite { offset: base + 0x18, width: 4, value: (bdl_phys % 0x1_0000_0000) as u32 });
    v.push(RegWrite { offset: base + 0x1C, width: 4, value: (bdl_phys / 0x1_0000_0000) as u32 });
    assert(STREAM_TAG << 20u32 == 0x10_0000u32) by (bit_vector);
    assert(v@ =~= spec_stream_setup(base, bdl_phys));
    v
}

/// The amplifier gain for `volume` percent: a share of the 7-bit maximum 0x7F.
pub open spec fn spec_gain(volume: u8) -> u32 {
    (((0x7F * volume as int) / 100) as u32) & 0x7Fu32
}

pub fn gain(volume: u8) -> (res: u32)
    ensures
        res == spec_gain(volume),
        res <= 0x7F,
{
    let p: u32 = 0x7F * volume as u32;
    let q: u32 = p / 100;
    let g: u32 = q & 0x7F;
    assert(g <= 0x7F) by (bit_vector)
        requires
            g == q & 0x7F,
    ;
    g
}

/// Up to full volume, the gain is the volume's share of 0x7F, rounded down; so a
/// louder setting never gives a smaller gain.
pub proof fn law_gain_monotone(v1: u8, v2: u8)
    requires
        v1 <= v2 <= 100,
    ensures
        spec_gain(v1) == 0x7F * v1 / 100,
        spec_gain(v2) == 0x7F * v2 / 100,
        spec_gain(v1) <= spec_gain(v2),
{
    assert(0x7F * v1 / 100 <= 0x7F && 0x7F * v2 / 100 <= 0x7F && 0x7F * v1 / 100 <= 0x7F * v2 / 100) by (nonlinear_arith)
        requires
            v1 <= v2 <= 100,
    ;
    let a: u32 = ((0x7F * v1 as int) / 100) as u32;
    let b: u32 = ((0x7F * v2 as int) / 100) as u32;
    assert(a <= 0x7F ==> a & 0x7F == a) by (bit_vector);
    assert(b <= 0x7F ==> b & 0x7F == b) by (bit_vector);
}

/// Volumes above 100% are taken as 100%.
pub fn clamp_volume(vol: u8) -> (res: u8)
    ensures
        res == if vol > 100 { 100 } else { vol },
{
    if vol > 100 { 100 } else { vol }
}

/// Start node and node count of a Subordinate Node Count response.
pub fn node_range(info: u32) -> (res: (u32, u32))
    ensures
        res.0 == (info >> 16u32) & 0xFF,
        res.1 == info & 0xFF,
{
    ((info >> 16u32) & 0xFF, info & 0xFF)
}

/// A widget's type: bits 20..23 of its capabilities.
pub fn widget_type(caps: u32) -> (res: u32)
    ensures
        res == (caps >> 20u32) & 0xF,
{
    (caps >> 20u32) & 0xF
}

pub open spec fn spec_widget_type_name(t: u32) -> Seq<char> {
    if t == 0 { "Audio Output (DAC)"@ }
    else if t == 1 { "Audio Input (ADC)"@ }
    else if t == 2 { "Audio Mixer"@ }
    else if t == 3 { "Audio Selector"@ }
    else if t == 4 { "Pin Complex"@ }
    else if t == 5 { "Power Widget"@ }
    else if t == 6 { "Volume Widget"@ }
    else if t == 7 { "Beep Generator"@ }
    else { "Unknown"@ }
}

pub fn widget_type_name(t: u32) -> (res: &'static str)
    ensures
        res@ == spec_widget_type_name(t),
{
    if t == 0 { "Audio Output (DAC)" }
    else if t == 1 { "Audio Input (ADC)" }
    else if t == 2 { "Audio Mixer" }
    else if t == 3 { "Audio Selector" }
    else if t == 4 { "Pin Complex" }
    else if t == 5 { "Power Widget" }
    else if t == 6 { "Volume Widget" }
    else if t == 7 { "Beep Generator" }
    else { "Unknown" }
}

/// The payloads sent to a widget with capabilities `caps` to route audio out at `gain`:
/// the output amplifier's gain if it has one, the gain of its eight input-amplifier
/// indices if it has them, then by widget type: a DAC gets stream 1 channel 0 and the
/// stream format, a selector input 0, a pin complex output-and-headphone enable and EAPD.
pub open spec fn spec_widget_verbs(caps: u32, gain: u32) -> Seq<u32> {
    let out_amp: Seq<u32> = if caps & 4 != 0 { seq![0x3B000u32 | gain] } else { Seq::empty() };
    let in_amp: Seq<u32> = if caps & 2 != 0 {
        Seq::new(8, |i: int| 0x37000u32 | ((i as u32) << 8u32) | gain)
    } else {
        Seq::empty()
    };
    let t = (caps >> 20u32) & 0xF;
    let by_type: Seq<u32> = if t == 0 {
        seq![0x70610u32, 0x20011u32]
    } else if t == 3 {
        seq![0x70100u32]
    } else if t == 4 {
        seq![0x707C0u32, 0x70C02u32]
    } else {
        Seq::empty()
    };
    out_amp + in_amp + by_type
}

pub fn widget_verbs(caps: u32, gain: u32) -> (res: Vec<u32>)
    ensures
        res@ == spec_widget_verbs(caps, gain),
{
    let mut v: Vec<u32> = Vec::new();
    if caps & 4 != 0 {
        v.push(0x3B000u32 | gain);
    }
    let ghost v0 = v@;
    if caps & 2 != 0 {
        let mut i: u32 = 0;
        while i < 8
            invariant
                i <= 8,
                v@ == v0 + Seq::new(i as nat, |k: int| 0x37000u32 | ((k as u32) << 8u32) | gain),
            decreases 8 - i,
        {
            v.push(0x37000u32 | (i << 8u32) | gain);
            i = i + 1;
            assert(v@ =~= v0 + Seq::new(i as nat, |k: int| 0x37000u32 | ((k as u32) << 8u32) | gain));
        }
    }
    let ghost v1 = v@;
    let t = widget_type(caps);
    if t == 0 {
        v.push(0x70610);
        v.push(0x20011);
    } else if t == 3 {
        v.push(0x70100);
    } else if t == 4 {
        v.push(0x707C0);
        v.push(0x70C02);
    }
    assert(v@ =~= spec_widget_verbs(caps, gain));
    v
}

/// How many bytes of a PCM buffer fit in the DMA buffer.
pub fn audio_copy_len(len: usize) -> (res: usize)
    ensures
        res == if len < AUDIO_BUFFER_BYTES { len } else { AUDIO_BUFFER_BYTES },
{
    if len < AUDIO_BUFFER_BYTES { len } else { AUDIO_BUFFER_BYTES }
}

/// Timer ticks (18.2 per second) that `bytes` of 48 kHz 16-bit stereo audio last.
pub fn playback_ticks(bytes: usize) -> (res: u64)
    requires
        bytes <= AUDIO_BUFFER_BYTES,
    ensures
        res == bytes * 182 / 1_920_000,
{
    bytes as u64 * 182 / 1_920_000
}

/// Checks a PCM buffer before playback.
pub fn check_pcm(len: usize, initialized: bool) -> (res: Result<(), &'static str>)
    ensures
        match res {
            Ok(()) => len > 0 && initialized,
            Err(e) => (len == 0 && e@ == "Buffer PCM vacío"@) || (len > 0 && !initialized && e@ == "Driver HDA no inicializado"@),
        },
{
    if len == 0 {
        return Err("Buffer PCM vacío");
    }
    if !initialized {
        return Err("Driver HDA no inicializado");
    }
    Ok(())
}

/// The codecs present in a STATESTS mask, in order (addresses 0 to 14).
pub fn codecs_in_mask(mask: u16) -> (res: Vec<u8>)
    ensures
        forall|k: int| 0 <= k < res@.len() ==> res@[k] < 15 && mask & (1u16 << res@[k]) != 0,
        forall|k: int, l: int| 0 <= k < l < res@.len() ==> res@[k] < res@[l],
        forall|c: u8| c < 15 && mask & (1u16 << c) != 0 ==> res@.contains(c),
{
    let mut v: Vec<u8> = Vec::new();
    let mut c: u8 = 0;
    while c < 15
        invariant
            c <= 15,
            forall|k: int| 0 <= k < v@.len() ==> v@[k] < c && mask & (1u16 << v@[k]) != 0,
            forall|k: int, l: int| 0 <= k < l < v@.len() ==> v@[k] < v@[l],
            forall|d: u8| d < c && mask & (1u16 << d) != 0 ==> v@.contains(d),
        decreases 15 - c,
    {
        let ghost before = v@;
        if mask & (1u16 << c) != 0 {
            v.push(c);
            assert(v@[v@.len() - 1] == c);
        }
        proof {
            assert forall|d: u8| d < c + 1 && mask & (1u16 << d) != 0 implies v@.contains(d) by {
                if d == c {
                    assert(v@[v@.len() - 1] == c);
                } else {
                    assert(before.contains(d));
                    let j = choose|j: int| 0 <= j < before.len() && before[j] == d;
                    assert(v@[j] == d);
                }
            }
        }
        c = c + 1;
    }
    v
}

/// The codecs to enumerate, from the mask saved at set-up; the message printed
/// instead when there is no driver or no codec.
pub fn enumerate_codecs(d: Option<&HdaDriver>) -> (res: Result<Vec<u8>, &'static str>)
    ensures
        match d {
            None => res matches Err(e) && e@ == "[HDA] Driver no inicializado."@,
            Some(d) => if d.codec_mask == 0 {
                res matches Err(e) && e@ == "[HDA] No se detectaron codecs durante el arranque."@
            } else {
                res matches Ok(v) && (forall|c: u8| c < 15 && d.codec_mask & (1u16 << c) != 0 <==> v@.contains(c))
                    && forall|k: int, l: int| 0 <= k < l < v@.len() ==> v@[k] < v@[l]
            },
        },
{
    match d {
        None => Err("[HDA] Driver no inicializado."),
        Some(d) => {
            if d.codec_mask == 0 {
                return Err("[HDA] No se detectaron codecs durante el arranque.");
            }
            let v = codecs_in_mask(d.codec_mask);
            assert forall|c: u8| v@.contains(c) implies c < 15 && d.codec_mask & (1u16 << c) != 0 by {
                let k = choose|k: int| 0 <= k < v@.len() && v@[k] == c;
            }
            Ok(v)
        },
    }
}

/// What the driver keeps of the controller once it is set up.
#[derive(Debug, Clone, Copy, PartialEq, Eq, Structural)]
pub struct HdaDriver {
    pub bar_virt: usize,
    pub corb_entries: u16,
    pub rirb_entries: u16,
    pub codec_mask: u16,
    pub stream_base: usize,
    pub stream_running: bool,
    pub volume: u8,
}

impl HdaDriver {
    /// A driver for registers at `bar_virt` before the controller reset: no codecs
    /// known, stream 0 assumed at 0x80, volume 25%.
    pub fn new(bar_virt: usize) -> (res: Self)
        ensures
            res == (HdaDriver { bar_virt, corb_entries: 0, rirb_entries: 0, codec_mask: 0, stream_base: 0x80, stream_running: false, volume: 25 }),
    {
        HdaDriver { bar_virt, corb_entries: 0, rirb_entries: 0, codec_mask: 0, stream_base: 0x80, stream_running: false, volume: 25 }
    }

    /// Records what the controller reported after its reset: GCAP places the output
    /// stream, STATESTS tells the codecs present, and both command rings get 256 entries.
    pub fn configured(&mut self, gcap: u16, statests: u16)
        ensures
            *final(self) == (HdaDriver {
                stream_base: (0x80 + ((gcap >> 8u16) & 0xF) * 0x20) as usize,
                codec_mask: statests,
                corb_entries: 256,
                rirb_entries: 256,
                ..*old(self)
            }),
    {
        self.stream_base = output_stream_base(gcap);
        self.codec_mask = statests;
        self.corb_entries = 256;
        self.rirb_entries = 256;
    }

    /// Sets the volume, clamped to 100%.
    pub fn set_volume(&mut self, vol: u8)
        ensures
            *final(self) == (HdaDriver { volume: if vol > 100 { 100 } else { vol }, ..*old(self) }),
    {
        self.volume = clamp_volume(vol);
    }

    /// Stops the stream: the write that clears its control byte.
    pub fn stop_stream(&mut self) -> (res: RegWrite)
        ensures
            *final(self) == (HdaDriver { stream_running: false, ..*old(self) }),
            res == (RegWrite { offset: old(self).stream_base, width: 1, value: 0 }),
    {
        self.stream_running = false;
        RegWrite { offset: self.stream_base, width: 1, value: 0 }
    }

    /// Starts the stream from the control register's value `ctl`: sets RUN.
    pub fn start_stream(&mut self, ctl: u32) -> (res: RegWrite)
        ensures
            *final(self) == (HdaDriver { stream_running: true, ..*old(self) }),
            res == (RegWrite { offset: old(self).stream_base, width: 4, value: ctl | 2 }),
    {
        self.stream_running = true;
        RegWrite { offset: self.stream_base, width: 4, value: ctl | 2 }
    }
}

/// The status report of `hda status`.
pub open spec fn spec_status_lines(d: Option<HdaDriver>) -> Seq<Seq<char>> {
    match d {
        None => seq!["[HDA] El controlador de audio no esta inicializado o no fue encontrado."@],
        Some(d) => seq![
            "[HDA] Controlador detectado y en linea."@,
            "  BAR0 Virtual : "@ + alt_hex(d.bar_virt as nat, 0),
            "  Codecs       : "@ + dec(popcount16(d.codec_mask)) + " (mask: "@ + alt_hex(d.codec_mask as nat, 6) + ")"@,
            "  Stream Base  : "@ + alt_hex(d.stream_base as nat, 0),
            "  Stream DMA   : "@ + if d.stream_running { "ACTIVO"@ } else { "PARADO"@ },
            "  CORB Entradas: "@ + dec(d.corb_entries as nat),
            "  RIRB Entradas: "@ + dec(d.rirb_entries as nat),
        ],
    }
}

/// The number of set bits among the low `k` bits of `m`.
pub open spec fn popcount_low(m: u16, k: nat) -> nat
    decreases k,
{
    if k == 0 { 0 } else { popcount_low(m, (k - 1) as nat) + if m & (1u16 << ((k - 1) as u16)) != 0 { 1nat } else { 0nat } }
}

pub open spec fn popcount16(m: u16) -> nat {
    popcount_low(m, 16)
}

fn count_ones16(m: u16) -> (res: u64)
    ensures
        res == popcount16(m),
{
    let mut n: u64 = 0;
    let mut k: u16 = 0;
    while k < 16
        invariant
            k <= 16,
            n == popcount_low(m, k as nat),
            n <= k,
        decreases 16 - k,
    {
        if m & (1u16 << k) != 0 {
            n = n + 1;
        }
        k = k + 1;
    }
    n
}

pub fn print_status(d: Option<&HdaDriver>) -> (res: Vec<String>)
    ensures
        res@.len() == spec_status_lines(match d { Some(x) => Some(*x), None => None }).len(),
        forall|i: int| 0 <= i < res@.len() ==> #[trigger] res@[i]@ == spec_status_lines(match d { Some(x) => Some(*x), None => None })[i],
{
    let mut v: Vec<String> = Vec::new();
    match d {
        None => {
            v.push(String::from_str("[HDA] El controlador de audio no esta inicializado o no fue encontrado."));
        },
        Some(d) => {
            v.push(String::from_str("[HDA] Controlador detectado y en linea."));
            let mut s = String::new();
            push_str(&mut s, "  BAR0 Virtual : ");
            push_alt_hex(&mut s, d.bar_virt as u64, 0);
            v.push(s);
            let mut s = String::new();
            push_str(&mut s, "  Codecs       : ");
            push_dec(&mut s, count_ones16(d.codec_mask));
            push_str(&mut s, " (mask: ");
            push_alt_hex(&mut s, d.codec_mask as u64, 6);
            push_str(&mut s, ")");
            v.push(s);
            let mut s = String::new();
            push_str(&mut s, "  Stream Base  : ");
            push_alt_hex(&mut s, d.stream_base as u64, 0);
            v.push(s);
            let mut s = String::new();
            push_str(&mut s, "  Stream DMA   : ");
            push_str(&mut s, if d.stream_running { "ACTIVO" } else { "PARADO" });
            v.push(s);
            let mut s = String::new();
            push_str(&mut s, "  CORB Entradas: ");
            push_dec(&mut s, d.corb_entries as u64);
            v.push(s);
            let mut s = String::new();
            push_str(&mut s, "  RIRB Entradas: ");
            push_dec(&mut s, d.rirb_entries as u64);
            v.push(s);
        },
    }
    v
}

} // verus!
