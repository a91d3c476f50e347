use std::io::Cursor;
use voxmagic::wav::{wav_decode, wav_encode};

#[test]
fn header_bytes_are_standard_riff_wave() {
    let samples: Vec<i16> = vec![0, 1, -1, 32767, -32768];
    let bytes = wav_encode(&samples, 16000);
    assert_eq!(bytes.len(), 44 + 2 * samples.len());
    assert_eq!(&bytes[0..4], b"RIFF");
    assert_eq!(&bytes[4..8], &[46, 0, 0, 0]); // 36 + 10 data bytes
    assert_eq!(&bytes[8..12], b"WAVE");
    assert_eq!(&bytes[12..16], b"fmt ");
    assert_eq!(&bytes[16..20], &[16, 0, 0, 0]);
    assert_eq!(&bytes[20..22], &[1, 0]); // PCM
    assert_eq!(&bytes[22..24], &[1, 0]); // mono
    assert_eq!(&bytes[24..28], &[0x80, 0x3E, 0, 0]); // 16000 Hz
    assert_eq!(&bytes[28..32], &[0x00, 0x7D, 0, 0]); // 32000 bytes/s
    assert_eq!(&bytes[32..34], &[2, 0]); // block align
    assert_eq!(&bytes[34..36], &[16, 0]); // bits per sample
    assert_eq!(&bytes[36..40], b"data");
    assert_eq!(&bytes[40..44], &[10, 0, 0, 0]);
    // little-endian two's-complement sample pairs
    assert_eq!(&bytes[44..54], &[0, 0, 1, 0, 255, 255, 255, 127, 0, 128]);
}

#[test]
fn decode_returns_encoded_samples_exactly() {
    let samples: Vec<i16> = vec![0, 1, -1, 12345, -12345, 32767, -32768, 7];
    let bytes = wav_encode(&samples, 16000);
    let back = wav_decode(&bytes).expect("well-formed container");
    assert_eq!(back, samples);
}

#[test]
fn decode_rejects_mangled_bytes() {
    let samples: Vec<i16> = vec![5, 6, 7];
    let mut bytes = wav_encode(&samples, 16000);
    bytes[0] = b'X';
    assert!(wav_decode(&bytes).is_none());
    assert!(wav_decode(&[0u8; 10]).is_none());
    let mut odd = wav_encode(&samples, 16000);
    odd.push(0);
    assert!(wav_decode(&odd).is_none());
}

#[test]
fn hound_reads_our_container() {
    let samples: Vec<i16> = vec![100, -200, 300, -400];
    let bytes = wav_encode(&samples, 16000);
    let reader = hound::WavReader::new(Cursor::new(bytes)).expect("hound accepts the container");
    let spec = reader.spec();
    assert_eq!(spec.channels, 1);
    assert_eq!(spec.sample_rate, 16000);
    assert_eq!(spec.bits_per_sample, 16);
    assert_eq!(spec.sample_format, hound::SampleFormat::Int);
    let read: Vec<i16> = reader.into_samples::<i16>().map(|s| s.unwrap()).collect();
    assert_eq!(read, samples);
}

#[test]
fn we_read_hounds_container() {
    let spec = hound::WavSpec {
        channels: 1,
        sample_rate: 16000,
        bits_per_sample: 16,
        sample_format: hound::SampleFormat::Int,
    };
    let samples: Vec<i16> = vec![-1, 0, 1, 2, -32768, 32767];
    let mut cursor = Cursor::new(Vec::new());
    {
        let mut writer = hound::WavWriter::new(&mut cursor, spec).unwrap();
        for &s in &samples {
            writer.write_sample(s).unwrap();
        }
        writer.finalize().unwrap();
    }
    let bytes = cursor.into_inner();
    let back = wav_decode(&bytes).expect("hound writes the same minimal container");
    assert_eq!(back, samples);
}
