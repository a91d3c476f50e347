use voxmagic::resample::{downsample, TARGET_SAMPLE_RATE};

#[test]
fn same_rate_is_identity() {
    let samples: Vec<i16> = vec![3, -7, 1000, -32768, 32767, 0];
    let out = downsample(&samples, TARGET_SAMPLE_RATE, TARGET_SAMPLE_RATE);
    assert_eq!(out, samples);
}

#[test]
fn output_length_is_scaled_floor() {
    let samples: Vec<i16> = vec![0; 441];
    let out = downsample(&samples, 44100, 16000);
    assert_eq!(out.len(), 441 * 16000 / 44100);
    let out2 = downsample(&vec![0i16; 480], 48000, 16000);
    assert_eq!(out2.len(), 160);
}

#[test]
fn integral_ratio_picks_every_third_sample() {
    let samples: Vec<i16> = vec![0, 30, 60, 90, 120, 150];
    let out = downsample(&samples, 48000, 16000);
    assert_eq!(out, vec![0, 90]);
}

#[test]
fn fractional_ratio_interpolates_linearly() {
    let samples: Vec<i16> = vec![0, 100, 200, 300];
    // position of output sample 1 is 1.5: halfway between 100 and 200.
    let out = downsample(&samples, 24000, 16000);
    assert_eq!(out, vec![0, 150]);
}

#[test]
fn quantization_truncates_toward_zero() {
    let samples: Vec<i16> = vec![-1, -2, -3, -4];
    // position of output sample 1 is 1.5: -2.5 truncates to -2, not -3.
    let out = downsample(&samples, 24000, 16000);
    assert_eq!(out, vec![-1, -2]);
}

#[test]
fn sinusoid_stays_close_to_direct_evaluation() {
    let sr_in: u32 = 44100;
    let freq = 440.0f64;
    let amp = 10000.0f64;
    let n = 4410usize;
    let samples: Vec<i16> = (0..n)
        .map(|i| {
            (amp * (2.0 * std::f64::consts::PI * freq * (i as f64) / (sr_in as f64)).sin()) as i16
        })
        .collect();
    let out = downsample(&samples, sr_in, 16000);
    assert_eq!(out.len(), n * 16000 / sr_in as usize);
    for (j, &v) in out.iter().enumerate() {
        let pos = (j as f64) * (sr_in as f64) / 16000.0;
        let direct = amp * (2.0 * std::f64::consts::PI * freq * pos / (sr_in as f64)).sin();
        let err = (v as f64 - direct).abs();
        assert!(
            err <= 50.0,
            "sample {} deviates by {} (got {}, direct {})",
            j,
            err,
            v,
            direct
        );
    }
}

#[test]
fn upsampling_keeps_endpoints_and_interpolates() {
    let samples: Vec<i16> = vec![0, 100];
    // ratio 0.5: positions 0, 0.5, 1.0, 1.5; the last has no right neighbour.
    let out = downsample(&samples, 8000, 16000);
    assert_eq!(out, vec![0, 50, 100, 100]);
}
