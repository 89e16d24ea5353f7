use mosaic::spectral::{check_feature_budget, check_signal, frame_count, vocabulary, Error, MAX_CELLS};

#[test]
fn lib_vocabulary_matches_core_schema() {
    let schema = vocabulary();
    assert_eq!(schema.total_slots(), 1);
    assert_eq!(schema.max_radius(), 0);
}

#[test]
fn frames_count_hops_past_the_first_window() {
    assert_eq!(frame_count(0, 512, 256), 1);
    assert_eq!(frame_count(511, 512, 256), 1);
    assert_eq!(frame_count(512, 512, 256), 1);
    assert_eq!(frame_count(768, 512, 256), 2);
    assert_eq!(frame_count(1023, 512, 256), 2);
    assert_eq!(frame_count(usize::MAX, 1, 1), u32::MAX);
}

#[test]
fn spectral_budget_checks_cells_first() {
    assert_eq!(
        check_feature_budget(MAX_CELLS + 1, 1),
        Err(Error::TooManyCells { cells: MAX_CELLS + 1, max: MAX_CELLS })
    );
    assert_eq!(check_feature_budget(100, 1), Ok(()));
    assert!(matches!(check_feature_budget(3_000_000, 1), Err(Error::FeatureBufferTooLarge { .. })));
    assert_eq!(
        Error::InvalidFrequencyRange.to_display_string(),
        "band range must satisfy 0 < fmin < fmax <= sample_rate/2 (Nyquist)"
    );
}

#[test]
fn rejects_empty_and_zero_rate() {
    let empty: [f32; 0] = [];
    assert_eq!(check_signal(empty.len(), 8000).unwrap_err(), Error::EmptySignal);
    assert_eq!(check_signal([0.0f32, 1.0].len(), 0).unwrap_err(), Error::ZeroSampleRate);
    assert_eq!(check_signal(0, 0), Err(Error::EmptySignal));
    assert_eq!(check_signal(2048, 8000), Ok(()));
}
