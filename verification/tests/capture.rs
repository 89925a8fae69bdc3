use qingjian::capture::{accepts_voice_rate, capture_plan, CapturePlan, InputRange, StreamFormat};

#[test]
fn a_mono_range_including_16_khz_is_opened_directly() {
    let ranges = vec![
        InputRange { channels: 2, min_rate: 8000, max_rate: 48000 },
        InputRange { channels: 1, min_rate: 8000, max_rate: 48000 },
    ];
    assert!(accepts_voice_rate(&ranges));
    let default = StreamFormat { channels: 2, sample_rate: 48000 };
    assert_eq!(capture_plan(&ranges, default), CapturePlan::Direct);
}

#[test]
fn otherwise_the_default_format_is_resampled() {
    let ranges = vec![
        InputRange { channels: 2, min_rate: 16000, max_rate: 16000 },
        InputRange { channels: 1, min_rate: 44100, max_rate: 48000 },
    ];
    assert!(!accepts_voice_rate(&ranges));
    let default = StreamFormat { channels: 2, sample_rate: 44100 };
    assert_eq!(capture_plan(&ranges, default), CapturePlan::Resample(default));
    assert_eq!(capture_plan(&Vec::new(), default), CapturePlan::Resample(default));
}
