use anamnesis::dispatch::render::{format_finite, Quantile};

/// A number as it is handed to the renderer.
fn quantile(value: f64) -> Option<Quantile> {
    Some(if value.is_finite() {
        Quantile::Finite {
            text: format!("{value:.3}"),
        }
    } else {
        Quantile::NotFinite
    })
}

#[test]
fn format_finite_reserves_missing_for_absent_values() {
    assert_eq!(format_finite(&None), "N/A");
    assert_eq!(format_finite(&quantile(0.9)), "0.900");

    for value in [f64::NAN, f64::INFINITY, f64::NEG_INFINITY] {
        assert_eq!(format_finite(&quantile(value)), "invalid");
    }
}
