use mesa_kernel::audio_player::wav::decode_wav;
use mesa_kernel::audio_player::AudioError;

fn wav_16bit(channels: u16, frames: &[Vec<i16>]) -> Vec<u8> {
    let data_len = (frames.len() * channels as usize * 2) as u32;
    let mut v: Vec<u8> = Vec::new();
    v.extend_from_slice(b"RIFF");
    v.extend_from_slice(&(36 + data_len).to_le_bytes());
    v.extend_from_slice(b"WAVE");
    v.extend_from_slice(b"fmt ");
    v.extend_from_slice(&16u32.to_le_bytes());
    v.extend_from_slice(&1u16.to_le_bytes());
    v.extend_from_slice(&channels.to_le_bytes());
    v.extend_from_slice(&48000u32.to_le_bytes());
    v.extend_from_slice(&(48000u32 * channels as u32 * 2).to_le_bytes());
    v.extend_from_slice(&(channels * 2).to_le_bytes());
    v.extend_from_slice(&16u16.to_le_bytes());
    v.extend_from_slice(b"data");
    v.extend_from_slice(&data_len.to_le_bytes());
    for f in frames {
        for s in f {
            v.extend_from_slice(&s.to_le_bytes());
        }
    }
    v
}

#[test]
fn wav_mono_is_duplicated() {
    let bytes = wav_16bit(1, &[vec![100], vec![-7]]);
    let p = decode_wav(&bytes).unwrap();
    assert_eq!(p.samples, vec![100, 100, -7, -7]);
    assert_eq!(p.sample_rate, 48000);
    assert_eq!(p.channels, 2);
}

#[test]
fn wav_four_channels_average_left_last_right() {
    let bytes = wav_16bit(4, &[vec![10, 20, 30, -5]]);
    let p = decode_wav(&bytes).unwrap();
    assert_eq!(p.samples, vec![13, -5]);
}

#[test]
fn wav_nine_channels_downmix_halves() {
    // first half: 4 channels, second half: 5 channels
    let bytes = wav_16bit(9, &[vec![1, 2, 3, 5, 10, 10, 10, 10, -41]]);
    let p = decode_wav(&bytes).unwrap();
    // L = (1+2+3+5)/4 = 2 (truncated), R = (10*4 - 41)/5 = 0 (truncated toward zero)
    assert_eq!(p.samples, vec![2, 0]);
}

#[test]
fn wav_without_whole_frame_is_decode_error() {
    let bytes = wav_16bit(2, &[]);
    assert!(matches!(decode_wav(&bytes), Err(AudioError::DecodeError)));
}
