use mosquito_core::{qr_svg, QrError};

#[test]
fn qr_svg_produces_svg_markup() {
    let svg = qr_svg("http://192.168.1.42:8472").unwrap();
    assert!(svg.contains("<svg"));
    assert!(svg.contains("</svg>"));
}

#[test]
fn qr_svg_is_deterministic() {
    let a = qr_svg("http://192.168.1.42:8472").unwrap();
    let b = qr_svg("http://192.168.1.42:8472").unwrap();
    assert_eq!(a, b);
}

#[test]
fn qr_svg_differs_for_different_payloads() {
    let a = qr_svg("http://192.168.1.42:8472").unwrap();
    let b = qr_svg("http://192.168.1.42:9999").unwrap();
    assert_ne!(a, b);
}

#[test]
fn qr_svg_rejects_oversized_payload() {
    // A QR code tops out around 2953 bytes; far beyond any URL we make.
    let huge = "a".repeat(4000);
    assert!(qr_svg(&huge).is_err());
}

// --- further cases ---

#[test]
fn qr_svg_uses_the_chosen_colors() {
    let svg = qr_svg("http://10.0.0.2:8472").unwrap();
    assert!(svg.starts_with("<?xml"));
    assert!(svg.contains("#111111"));
    assert!(svg.contains("#ffffff"));
    assert!(svg.ends_with("</svg>"));
}

#[test]
fn qr_svg_oversized_payload_is_data_too_long() {
    let huge = "a".repeat(4000);
    let err = qr_svg(&huge).unwrap_err();
    assert_eq!(err, QrError::DataTooLong);
    assert_eq!(err.message(), "data too long");
}
