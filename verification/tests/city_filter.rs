use htcrawler::directory::{candidate_from_parts, city_allowed};

#[test]
fn allowed_cities_are_kept() {
    assert!(city_allowed("Montpellier"));
    assert!(city_allowed("Sète"));
}

#[test]
fn ascii_case_variants_are_kept() {
    assert!(city_allowed("montpellier"));
    assert!(city_allowed("MONTPELLIER"));
    assert!(city_allowed("mOnTpElLiEr"));
    assert!(city_allowed("sète"));
    assert!(city_allowed("SèTE"));
}

#[test]
fn only_ascii_letters_fold() {
    // 'È' is not an ASCII letter, so it is not an ASCII-case variant of
    // 'è' and the label does not match.
    assert!(!city_allowed("SÈTE"));
}

#[test]
fn other_cities_are_dropped() {
    assert!(!city_allowed("Paris"));
    assert!(!city_allowed("Montpellier "));
    assert!(!city_allowed(""));
    assert!(!city_allowed("Montpel"));
}

#[test]
fn candidate_needs_city_href_and_name() {
    let c = candidate_from_parts(
        Some("Montpellier".to_string()),
        Some("https://example.invalid/r/a/".to_string()),
        Some("Resto A".to_string()),
    );
    let c = c.expect("qualifying entry");
    assert_eq!(c.url, "https://example.invalid/r/a/");
    assert_eq!(c.name, "Resto A");
    assert_eq!(c.idrestaurant, None);
    assert_eq!(c.gpscoord, None);
    assert_eq!(c.hours, None);

    assert!(candidate_from_parts(
        None,
        Some("u".to_string()),
        Some("n".to_string())
    )
    .is_none());
    assert!(candidate_from_parts(
        Some("Paris".to_string()),
        Some("u".to_string()),
        Some("n".to_string())
    )
    .is_none());
    assert!(candidate_from_parts(
        Some("Sète".to_string()),
        None,
        Some("n".to_string())
    )
    .is_none());
    assert!(candidate_from_parts(
        Some("Sète".to_string()),
        Some("u".to_string()),
        None
    )
    .is_none());
}
