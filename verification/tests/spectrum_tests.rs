use spectrum_card::spectrum::{Quadrant, Spectrum};

#[test]
fn quadrant_labels() {
    assert_eq!(Quadrant::Q1.label(), "Q1");
    assert_eq!(Quadrant::Q2.label(), "Q2");
    assert_eq!(Quadrant::M.label(), "M");
    assert_eq!(Quadrant::Q3.label(), "Q3");
    assert_eq!(Quadrant::Q4.label(), "Q4");
}

#[test]
fn spectrum_labels() {
    assert_eq!(Spectrum::Quadrants(Quadrant::Q2).label(), "Quadrants");
    assert_eq!(Spectrum::Unknown.label(), "Unknown");
    assert_eq!(Spectrum::Number(0.75f32.to_bits()).label(), "Number");
}

#[test]
fn defaults() {
    assert_eq!(Quadrant::default(), Quadrant::M);
    assert_eq!(Spectrum::default(), Spectrum::Unknown);
}
