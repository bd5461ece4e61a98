use audio_visualizer::signal_processing::audiovisual::{
    spectrum_bands, COLOUR_BANDS, MAXIMUM_VISIBLE_WAVELENGTH, MINIMUM_VISIBLE_WAVELENGTH,
};
use audio_visualizer::signal_processing::{Sample, Scope, FFT_SIZE};

#[test]
fn scope_new_spans_its_range() {
    let scope = Scope::new(3, 10);
    assert_eq!(scope, Scope { start: 3, end: 10, size: 7 });
}

#[test]
fn sample_with_size_only_covers_zero_to_size() {
    let sample: Sample<Vec<u8>> = Sample::new(Some(vec![1, 2, 3]), None, Some(3));
    assert_eq!(sample.data_points, Some(vec![1, 2, 3]));
    assert_eq!(sample.scope, Scope { start: 0, end: 3, size: 3 });
    assert_eq!(sample.size, 3);
}

#[test]
fn sample_with_scope_only_takes_its_size() {
    let sample: Sample<u32> = Sample::new(None, Some(Scope::new(4, 12)), None);
    assert_eq!(sample.data_points, None);
    assert_eq!(sample.scope, Scope { start: 4, end: 12, size: 8 });
    assert_eq!(sample.size, 8);
}

#[test]
fn sample_with_scope_and_size_keeps_both() {
    let sample: Sample<u32> = Sample::new(Some(7), Some(Scope::new(0, 5)), Some(FFT_SIZE));
    assert_eq!(sample.data_points, Some(7));
    assert_eq!(sample.scope, Scope { start: 0, end: 5, size: 5 });
    assert_eq!(sample.size, 1024);
}

#[test]
fn spectrum_bands_split_in_thirds() {
    assert_eq!(spectrum_bands(9), vec![0, 0, 0, 1, 1, 1, 2, 2, 2]);
    assert_eq!(spectrum_bands(10), vec![0, 0, 0, 1, 1, 1, 2, 2, 2, 2]);
}

#[test]
fn spectrum_bands_short_spectrum_weighs_on_middle_band() {
    assert_eq!(spectrum_bands(0), Vec::<usize>::new());
    assert_eq!(spectrum_bands(1), vec![1]);
    assert_eq!(spectrum_bands(2), vec![1, 1]);
    assert_eq!(spectrum_bands(3), vec![0, 1, 2]);
}

#[test]
fn spectrum_bands_are_ordered_and_in_range() {
    let bands = spectrum_bands(1000);
    assert_eq!(bands.len(), 1000);
    for i in 1..bands.len() {
        assert!(bands[i - 1] <= bands[i]);
        assert!(bands[i] < COLOUR_BANDS);
    }
    assert_eq!(bands[332], 0);
    assert_eq!(bands[333], 1);
    assert_eq!(bands[665], 1);
    assert_eq!(bands[666], 2);
}

#[test]
fn visible_wavelengths() {
    assert_eq!(MINIMUM_VISIBLE_WAVELENGTH, 380);
    assert_eq!(MAXIMUM_VISIBLE_WAVELENGTH, 740);
}
