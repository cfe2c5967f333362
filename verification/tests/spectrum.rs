use rt_rust::spectrum::{table_index, Sample, TSpectrum, Wavelengths};

type DSpectrum = TSpectrum<f64>;

fn add(a: f64, b: f64) -> f64 {
    a + b
}

fn mul(a: f64, b: f64) -> f64 {
    a * b
}

fn sum(s1: &DSpectrum, s2: &DSpectrum) -> DSpectrum {
    s1.add_with(s2, add)
}

fn product(s1: &DSpectrum, s2: &DSpectrum) -> DSpectrum {
    s1.mul_with(s2, mul, 0.0)
}

fn spectrum_is_equal(spectrum1: &DSpectrum, spectrum2: &DSpectrum) -> bool {
    if spectrum1.len() != spectrum2.len() {
        false
    } else {
        spectrum1
            .get_samples()
            .iter()
            .zip(spectrum2.get_samples().iter())
            .all(|(sample1, sample2)| {
                sample1.get_wavelength() == sample2.get_wavelength()
                    && (*sample1.get_intensity() - *sample2.get_intensity()).abs() < 0.001
            })
    }
}

fn wavelengths_of(spectrum: &DSpectrum) -> Vec<usize> {
    spectrum
        .get_samples()
        .iter()
        .map(|s| *s.get_wavelength())
        .collect()
}

#[test]
fn spectrum_add_01() {
    let give_spectra = || {
        (
            DSpectrum::new(vec![Sample::new(300, 1.0)]),
            DSpectrum::new(vec![Sample::new(300, 1.0)]),
        )
    };

    let expected = DSpectrum::new(vec![Sample::new(300, 2.0)]);

    let (spectrum1, spectrum2) = give_spectra();
    assert!(spectrum_is_equal(&sum(&spectrum1, &spectrum2), &expected));
    let (spectrum1, spectrum2) = give_spectra();
    assert!(spectrum_is_equal(&spectrum1.add_with(&spectrum2, add), &expected));
    let (spectrum1, spectrum2) = give_spectra();
    assert!(spectrum_is_equal(&(&spectrum1).add_with(&spectrum2, add), &expected));
    let (spectrum1, spectrum2) = give_spectra();
    assert!(spectrum_is_equal(&(&spectrum1).add_with(&spectrum2, |a, b| a + b), &expected));
}

#[test]
fn spectrum_add_02() {
    let give_spectra = || {
        (
            DSpectrum::new(vec![Sample::new(300, 1.0)]),
            DSpectrum::new(vec![Sample::new(305, 1.0)]),
        )
    };

    let expected = DSpectrum::new(vec![Sample::new(300, 1.0), Sample::new(305, 1.0)]);

    let (spectrum1, spectrum2) = give_spectra();
    assert!(spectrum_is_equal(&sum(&spectrum1, &spectrum2), &expected));
    let (spectrum1, spectrum2) = give_spectra();
    assert!(spectrum_is_equal(&spectrum1.add_with(&spectrum2, add), &expected));
    let (spectrum1, spectrum2) = give_spectra();
    assert!(spectrum_is_equal(&(&spectrum1).add_with(&spectrum2, add), &expected));
    let (spectrum1, spectrum2) = give_spectra();
    assert!(spectrum_is_equal(&(&spectrum1).add_with(&spectrum2, |a, b| a + b), &expected));
}

#[test]
fn spectrum_add_03() {
    let give_spectra = || {
        (
            DSpectrum::new(vec![Sample::new(305, 1.0), Sample::new(310, 1.0)]),
            DSpectrum::new(vec![Sample::new(300, 1.0)]),
        )
    };

    let expected = DSpectrum::new(vec![
        Sample::new(300, 1.0),
        Sample::new(305, 1.0),
        Sample::new(310, 1.0),
    ]);

    let (spectrum1, spectrum2) = give_spectra();
    assert!(spectrum_is_equal(&sum(&spectrum1, &spectrum2), &expected));
    let (spectrum1, spectrum2) = give_spectra();
    assert!(spectrum_is_equal(&spectrum1.add_with(&spectrum2, add), &expected));
    let (spectrum1, spectrum2) = give_spectra();
    assert!(spectrum_is_equal(&(&spectrum1).add_with(&spectrum2, add), &expected));
    let (spectrum1, spectrum2) = give_spectra();
    assert!(spectrum_is_equal(&(&spectrum1).add_with(&spectrum2, |a, b| a + b), &expected));
}

#[test]
fn spectrum_add_04() {
    let give_spectra = || {
        (
            DSpectrum::new(vec![Sample::new(305, 1.0), Sample::new(315, 1.0)]),
            DSpectrum::new(vec![Sample::new(300, 1.0), Sample::new(310, 1.0)]),
        )
    };

    let expected = DSpectrum::new(vec![
        Sample::new(300, 1.0),
        Sample::new(305, 1.0),
        Sample::new(310, 1.0),
        Sample::new(315, 1.0),
    ]);

    let (spectrum1, spectrum2) = give_spectra();
    assert!(spectrum_is_equal(&sum(&spectrum1, &spectrum2), &expected));
    let (spectrum1, spectrum2) = give_spectra();
    assert!(spectrum_is_equal(&spectrum1.add_with(&spectrum2, add), &expected));
    let (spectrum1, spectrum2) = give_spectra();
    assert!(spectrum_is_equal(&(&spectrum1).add_with(&spectrum2, add), &expected));
    let (spectrum1, spectrum2) = give_spectra();
    assert!(spectrum_is_equal(&(&spectrum1).add_with(&spectrum2, |a, b| a + b), &expected));
}

#[test]
fn spectrum_mul_01() {
    let give_spectra = || {
        (
            DSpectrum::new(vec![Sample::new(300, 1.0)]),
            DSpectrum::new(vec![Sample::new(300, 1.0)]),
        )
    };

    let expected = DSpectrum::new(vec![Sample::new(300, 1.0)]);

    let (spectrum1, spectrum2) = give_spectra();
    assert!(spectrum_is_equal(&product(&spectrum1, &spectrum2), &expected));
    let (spectrum1, spectrum2) = give_spectra();
    assert!(spectrum_is_equal(&spectrum1.mul_with(&spectrum2, mul, 0.0), &expected));
    let (spectrum1, spectrum2) = give_spectra();
    assert!(spectrum_is_equal(&(&spectrum1).mul_with(&spectrum2, mul, 0.0), &expected));
    let (spectrum1, spectrum2) = give_spectra();
    assert!(spectrum_is_equal(&(&spectrum1).mul_with(&spectrum2, |a, b| a * b, 0.0), &expected));
}

#[test]
fn spectrum_mul_02() {
    let give_spectra = || {
        (
            DSpectrum::new(vec![Sample::new(300, 1.0)]),
            DSpectrum::new(vec![Sample::new(305, 1.0)]),
        )
    };

    let expected = DSpectrum::new(vec![Sample::new(300, 0.0), Sample::new(305, 0.0)]);

    let (spectrum1, spectrum2) = give_spectra();
    assert!(spectrum_is_equal(&product(&spectrum1, &spectrum2), &expected));
    let (spectrum1, spectrum2) = give_spectra();
    assert!(spectrum_is_equal(&spectrum1.mul_with(&spectrum2, mul, 0.0), &expected));
    let (spectrum1, spectrum2) = give_spectra();
    assert!(spectrum_is_equal(&(&spectrum1).mul_with(&spectrum2, mul, 0.0), &expected));
    let (spectrum1, spectrum2) = give_spectra();
    assert!(spectrum_is_equal(&(&spectrum1).mul_with(&spectrum2, |a, b| a * b, 0.0), &expected));
}

#[test]
fn spectrum_mul_03() {
    let give_spectra = || {
        (
            DSpectrum::new(vec![Sample::new(305, 1.0), Sample::new(310, 1.0)]),
            DSpectrum::new(vec![Sample::new(300, 1.0)]),
        )
    };

    let expected = DSpectrum::new(vec![
        Sample::new(300, 0.0),
        Sample::new(305, 0.0),
        Sample::new(310, 0.0),
    ]);

    let (spectrum1, spectrum2) = give_spectra();
    assert!(spectrum_is_equal(&product(&spectrum1, &spectrum2), &expected));
    let (spectrum1, spectrum2) = give_spectra();
    assert!(spectrum_is_equal(&spectrum1.mul_with(&spectrum2, mul, 0.0), &expected));
    let (spectrum1, spectrum2) = give_spectra();
    assert!(spectrum_is_equal(&(&spectrum1).mul_with(&spectrum2, mul, 0.0), &expected));
    let (spectrum1, spectrum2) = give_spectra();
    assert!(spectrum_is_equal(&(&spectrum1).mul_with(&spectrum2, |a, b| a * b, 0.0), &expected));
}

#[test]
fn spectrum_mul_04() {
    let give_spectra = || {
        (
            DSpectrum::new(vec![Sample::new(305, 1.0), Sample::new(315, 1.0)]),
            DSpectrum::new(vec![Sample::new(300, 1.0), Sample::new(310, 1.0)]),
        )
    };

    let expected = DSpectrum::new(vec![
        Sample::new(300, 0.0),
        Sample::new(305, 0.0),
        Sample::new(310, 0.0),
        Sample::new(315, 0.0),
    ]);

    let (spectrum1, spectrum2) = give_spectra();
    assert!(spectrum_is_equal(&product(&spectrum1, &spectrum2), &expected));
    let (spectrum1, spectrum2) = give_spectra();
    assert!(spectrum_is_equal(&spectrum1.mul_with(&spectrum2, mul, 0.0), &expected));
    let (spectrum1, spectrum2) = give_spectra();
    assert!(spectrum_is_equal(&(&spectrum1).mul_with(&spectrum2, mul, 0.0), &expected));
    let (spectrum1, spectrum2) = give_spectra();
    assert!(spectrum_is_equal(&(&spectrum1).mul_with(&spectrum2, |a, b| a * b, 0.0), &expected));
}

#[test]
fn spectrum_mul_05() {
    let give_spectra = || {
        (
            DSpectrum::new(vec![Sample::new(315, 1.0)]),
            DSpectrum::new(vec![Sample::new(300, 2.0), Sample::new(315, 2.0)]),
        )
    };

    let expected = DSpectrum::new(vec![Sample::new(300, 0.0), Sample::new(315, 2.0)]);

    let (spectrum1, spectrum2) = give_spectra();
    assert!(spectrum_is_equal(&product(&spectrum1, &spectrum2), &expected));
    let (spectrum1, spectrum2) = give_spectra();
    assert!(spectrum_is_equal(&spectrum1.mul_with(&spectrum2, mul, 0.0), &expected));
    let (spectrum1, spectrum2) = give_spectra();
    assert!(spectrum_is_equal(&(&spectrum1).mul_with(&spectrum2, mul, 0.0), &expected));
    let (spectrum1, spectrum2) = give_spectra();
    assert!(spectrum_is_equal(&(&spectrum1).mul_with(&spectrum2, |a, b| a * b, 0.0), &expected));
}

#[test]
fn sum_is_commutative_on_wavelengths_and_values() {
    let a = DSpectrum::new(vec![Sample::new(300, 1.0), Sample::new(320, 4.0)]);
    let b = DSpectrum::new(vec![Sample::new(310, 2.0), Sample::new(320, 0.5)]);
    let ab = sum(&a, &b);
    let ba = sum(&b, &a);
    assert!(spectrum_is_equal(&ab, &ba));
    assert_eq!(wavelengths_of(&ab), vec![300, 310, 320]);
}

#[test]
fn sum_and_product_share_wavelengths() {
    let a = DSpectrum::new(vec![Sample::new(305, 1.0), Sample::new(400, 3.0)]);
    let b = DSpectrum::new(vec![Sample::new(300, 2.0), Sample::new(400, 2.0), Sample::new(500, 1.0)]);
    assert_eq!(wavelengths_of(&sum(&a, &b)), wavelengths_of(&product(&a, &b)));
    assert_eq!(wavelengths_of(&sum(&a, &b)), vec![300, 305, 400, 500]);
    let expected = DSpectrum::new(vec![
        Sample::new(300, 0.0),
        Sample::new(305, 0.0),
        Sample::new(400, 6.0),
        Sample::new(500, 0.0),
    ]);
    assert!(spectrum_is_equal(&product(&a, &b), &expected));
}

#[test]
fn sum_with_empty_is_identity() {
    let a = DSpectrum::new(vec![Sample::new(380, 0.25), Sample::new(385, 0.5)]);
    let empty = DSpectrum::new_empty();
    assert!(spectrum_is_equal(&sum(&a, &empty), &a));
    assert!(spectrum_is_equal(&sum(&empty, &a), &a));
    assert!(empty.is_empty());
    assert_eq!(empty.len(), 0);
}

#[test]
fn product_with_empty_zeroes_every_sample() {
    let a = DSpectrum::new(vec![Sample::new(380, 0.25), Sample::new(385, 0.5)]);
    let empty = DSpectrum::new_empty();
    let expected = DSpectrum::new(vec![Sample::new(380, 0.0), Sample::new(385, 0.0)]);
    assert!(spectrum_is_equal(&product(&a, &empty), &expected));
}

#[test]
fn scale_keeps_wavelengths() {
    let a = DSpectrum::new(vec![Sample::new(380, 0.25), Sample::new(385, 0.5)]);
    let scaled = a.scale_with(|x| x * 4.0);
    let expected = DSpectrum::new(vec![Sample::new(380, 1.0), Sample::new(385, 2.0)]);
    assert!(spectrum_is_equal(&scaled, &expected));
}

#[test]
fn zeros_and_ones_step_through_the_range() {
    let zeros = DSpectrum::zeros(380..=400, 5, 0.0);
    assert_eq!(wavelengths_of(&zeros), vec![380, 385, 390, 395, 400]);
    assert!(zeros.get_samples().iter().all(|s| *s.get_intensity() == 0.0));

    let ones = DSpectrum::ones(380..=398, 5, 1.0);
    assert_eq!(wavelengths_of(&ones), vec![380, 385, 390, 395]);
    assert!(ones.get_samples().iter().all(|s| *s.get_intensity() == 1.0));

    let single = DSpectrum::ones(400..=400, 10, 1.0);
    assert_eq!(wavelengths_of(&single), vec![400]);

    let none = DSpectrum::zeros(401..=400, 5, 0.0);
    assert!(none.is_empty());
}

#[test]
fn complete_wavelengths_cover_the_tables() {
    let w = Wavelengths::complete();
    let ws = w.get_wavelengths();
    assert_eq!(ws.len(), 81);
    assert_eq!(ws[0], 380);
    assert_eq!(ws[1], 385);
    assert_eq!(ws[80], 780);
}

#[test]
fn table_index_of_wavelengths() {
    assert_eq!(table_index(380), Some(0));
    assert_eq!(table_index(385), Some(1));
    assert_eq!(table_index(780), Some(80));
    assert_eq!(table_index(381), None);
    assert_eq!(table_index(375), None);
    assert_eq!(table_index(785), None);
}

#[test]
fn from_srgb_for_wavelengths_keeps_order() {
    let w = Wavelengths::new(vec![400, 380, 500]);
    let s = DSpectrum::from_srgb_for_wavelengths(|wl| wl as f64 / 100.0, &w);
    let expected = DSpectrum::new(vec![
        Sample::new(400, 4.0),
        Sample::new(380, 3.8),
        Sample::new(500, 5.0),
    ]);
    assert!(spectrum_is_equal(&s, &expected));
}

#[test]
fn sample_accessors() {
    let s = Sample::new(455, 0.75);
    assert_eq!(*s.get_wavelength(), 455);
    assert_eq!(*s.get_intensity(), 0.75);
}
