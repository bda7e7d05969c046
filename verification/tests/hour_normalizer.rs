use htcrawler::hours::{hours_from_text, parse_hours, process_hour};

#[test]
fn full_week_phrase_is_normalized() {
    assert_eq!(
        parse_hours("du lundi au vendredi de 11h30 à 13h30."),
        "11:30 - 13:30"
    );
}

#[test]
fn short_phrase_pads_hours_and_minutes() {
    assert_eq!(parse_hours("de 9h à 10h"), "09:00 - 10:00");
}

#[test]
fn bare_hour_defaults_minutes() {
    assert_eq!(parse_hours("12h"), "12:00");
}

#[test]
fn jeudi_prefix_is_stripped_too() {
    assert_eq!(
        parse_hours("du lundi au jeudi de 8h45 à 14h"),
        "08:45 - 14:00"
    );
}

#[test]
fn upper_case_input_is_folded_before_normalizing() {
    // If the case folding handed its input back unchanged, the separator
    // letters would not be found and the result would keep raw fragments.
    assert_eq!(
        parse_hours("Du Lundi Au Vendredi De 11H30 À 13H30."),
        "11:30 - 13:30"
    );
}

#[test]
fn empty_minutes_after_separator_default_to_zero() {
    assert_eq!(parse_hours("de 9h à 13h30"), "09:00 - 13:30");
}

#[test]
fn process_hour_pads_to_two_digits() {
    assert_eq!(process_hour("9"), "09");
    assert_eq!(process_hour("11"), "11");
    assert_eq!(process_hour(""), "00");
    assert_eq!(process_hour(" 9 "), "09");
}

#[test]
fn override_table_replaces_known_bad_phrase() {
    let fixed = hours_from_text(
        "https://www.crous-montpellier.fr/restaurant/resto-u-triolet/",
        "horaires illisibles",
    );
    assert_eq!(fixed, "11:30 - 13:30");
}

#[test]
fn other_venues_use_their_scraped_text() {
    let hours = hours_from_text(
        "https://www.crous-montpellier.fr/restaurant/autre/",
        "du lundi au vendredi de 7h30 à 19h",
    );
    assert_eq!(hours, "07:30 - 19:00");
}
