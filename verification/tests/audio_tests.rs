use myr::audio::encode_wav;

#[test]
fn test_wav_encoding_with_known_samples() {
    let samples: Vec<f32> = vec![0.5, -0.5, 0.25, -0.25];
    let sample_rate = 16000;

    let pcm: Vec<i16> = samples
        .iter()
        .map(|&s| (s.clamp(-1.0, 1.0) * i16::MAX as f32) as i16)
        .collect();
    let wav_bytes = encode_wav(&pcm, sample_rate).unwrap();
    assert!(!wav_bytes.is_empty());
    assert!(wav_bytes.len() > 44);

    let reader = hound::WavReader::new(std::io::Cursor::new(wav_bytes)).unwrap();
    assert_eq!(reader.spec().channels, 1);
    assert_eq!(reader.spec().sample_rate, sample_rate);
    assert_eq!(reader.spec().bits_per_sample, 16);
}

#[test]
fn wav_holds_the_samples_in_order() {
    let pcm: Vec<i16> = vec![0, 1, -1, i16::MAX, i16::MIN];
    let wav_bytes = encode_wav(&pcm, 8000).unwrap();
    assert_eq!(wav_bytes.len(), 44 + 2 * pcm.len());
    let mut reader = hound::WavReader::new(std::io::Cursor::new(wav_bytes)).unwrap();
    let back: Vec<i16> = reader.samples::<i16>().map(|s| s.unwrap()).collect();
    assert_eq!(back, pcm);
}

#[test]
fn test_silence_detection() {
    let silent_samples: Vec<f32> = vec![0.001, -0.002, 0.0015, -0.0005];
    let rms = (silent_samples.iter().map(|&s| s * s).sum::<f32>() / silent_samples.len() as f32)
        .sqrt();
    assert!(rms < 0.01, "Silent samples should have RMS < 0.01");

    let audible_samples: Vec<f32> = vec![0.5, -0.5, 0.3, -0.3];
    let rms = (audible_samples.iter().map(|&s| s * s).sum::<f32>()
        / audible_samples.len() as f32)
        .sqrt();
    assert!(rms >= 0.01, "Audible samples should have RMS >= 0.01");
}

#[test]
fn wav_header_is_the_short_pcm_form() {
    let wav = encode_wav(&vec![1, -2], 16000).unwrap();
    let mut expected: Vec<u8> = Vec::new();
    expected.extend_from_slice(b"RIFF");
    expected.extend_from_slice(&40u32.to_le_bytes());
    expected.extend_from_slice(b"WAVEfmt ");
    expected.extend_from_slice(&16u32.to_le_bytes());
    expected.extend_from_slice(&1u16.to_le_bytes());
    expected.extend_from_slice(&1u16.to_le_bytes());
    expected.extend_from_slice(&16000u32.to_le_bytes());
    expected.extend_from_slice(&32000u32.to_le_bytes());
    expected.extend_from_slice(&2u16.to_le_bytes());
    expected.extend_from_slice(&16u16.to_le_bytes());
    expected.extend_from_slice(b"data");
    expected.extend_from_slice(&4u32.to_le_bytes());
    expected.extend_from_slice(&[1, 0, 0xfe, 0xff]);
    assert_eq!(wav, expected);
}
