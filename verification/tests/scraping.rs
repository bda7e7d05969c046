use htcrawler::directory::discover;
use htcrawler::enrich::{extract_coordinates, extract_hours, extract_meals, DetailError, MealError};

#[test]
fn discover_filters_by_city_and_skips_incomplete_entries() {
    let html = r#"
    <html><body><div class="vc_restaurants"><ul>
      <li><a href="https://x.invalid/r/a/">
        <div class="restaurant_title">Resto A</div>
        <div class="restaurant_area">Montpellier</div>
      </a></li>
      <li><a href="https://x.invalid/r/b/">
        <div class="restaurant_title">Resto B</div>
        <div class="restaurant_area">SETE</div>
      </a></li>
      <li><a href="https://x.invalid/r/c/">
        <div class="restaurant_title">Resto C</div>
        <div class="restaurant_area">Paris</div>
      </a></li>
      <li><a>
        <div class="restaurant_title">Sans Lien</div>
        <div class="restaurant_area">Montpellier</div>
      </a></li>
      <li><a href="https://x.invalid/r/d/">
        <div class="restaurant_area">montpellier</div>
      </a></li>
      <li><a href="https://x.invalid/r/e/">
        <div class="restaurant_title">Resto E</div>
      </a></li>
    </ul></div></body></html>"#;
    let cands = discover(html);
    let urls: Vec<&str> = cands.iter().map(|c| c.url.as_str()).collect();
    // "SETE" is not an ASCII-case variant of "Sète" ('è' stays 'è'), so
    // Resto B is dropped; so are the entry without href, the one without
    // a name element, the one without a city label, and the foreign city.
    assert_eq!(urls, vec!["https://x.invalid/r/a/"]);
    assert_eq!(cands[0].name, "Resto A");
    assert_eq!(cands[0].idrestaurant, None);
    assert_eq!(cands[0].gpscoord, None);
    assert_eq!(cands[0].hours, None);
}

#[test]
fn page_without_listing_yields_no_candidates() {
    assert!(discover("<p>rien</p>").is_empty());
}

#[test]
fn discover_keeps_sete_case_variants() {
    let html = r#"
    <div class="vc_restaurants"><ul>
      <li><a href="https://x.invalid/r/s/">
        <div class="restaurant_title">Resto S</div>
        <div class="restaurant_area">sèTE</div>
      </a></li>
    </ul></div>"#;
    let cands = discover(html);
    assert_eq!(cands.len(), 1);
    assert_eq!(cands[0].name, "Resto S");
}

#[test]
fn coordinates_come_from_the_map_element() {
    let html = r#"<div id="map" data-lat="43.61" data-lon="3.87"></div>"#;
    let c = extract_coordinates(html, "https://x.invalid/r/a/").expect("coordinates");
    assert_eq!(c.restaurant, "https://x.invalid/r/a/");
    assert_eq!(c.gps, "point(43.61,3.87)");
}

#[test]
fn missing_map_or_attribute_means_no_coordinates() {
    assert!(matches!(
        extract_coordinates("<p>rien</p>", "u"),
        Err(DetailError::NoCoordinatesFound)
    ));
    let no_lon = r#"<div id="map" data-lat="43.61"></div>"#;
    assert!(matches!(
        extract_coordinates(no_lon, "u"),
        Err(DetailError::NoCoordinatesFound)
    ));
    let no_lat = r#"<div id="map" data-lon="3.87"></div>"#;
    assert!(matches!(
        extract_coordinates(no_lat, "u"),
        Err(DetailError::NoCoordinatesFound)
    ));
}

#[test]
fn hours_come_from_the_first_info_block() {
    let html = r#"
      <div class="info"><p>Du lundi au vendredi de 11h30 à 13h30.</p></div>
      <div class="info"><p>autre texte</p></div>"#;
    let h = extract_hours(html, "https://x.invalid/r/a/").expect("hours");
    assert_eq!(h, "11:30 - 13:30");
}

#[test]
fn missing_info_block_means_no_hours() {
    assert!(matches!(
        extract_hours("<p>rien</p>", "u"),
        Err(DetailError::NoHoursFound)
    ));
}

#[test]
fn menu_tree_is_extracted_with_shared_date() {
    let html = r#"
    <div class="menu">
      <div class="menu_date_title">Menu du mardi 19 mars 2024</div>
      <div class="meal">
        <div class="meal_title">Déjeuner</div>
        <ul class="meal_foodies">
          <li>Entrées<ul><li>Salade verte</li><li>Carottes râpées</li></ul></li>
          <li>Plats<ul><li>Poulet rôti</li></ul></li>
        </ul>
      </div>
      <div class="meal">
        <div class="meal_title">Dîner</div>
        <ul class="meal_foodies">
          <li>Desserts<ul><li>Compote</li></ul></li>
        </ul>
      </div>
    </div>"#;
    let meals = extract_meals(html, 7).expect("menu parses");
    assert_eq!(meals.len(), 2);
    assert_eq!(meals[0].typemeal, "Déjeuner");
    assert_eq!(meals[1].typemeal, "Dîner");
    for m in &meals {
        assert_eq!(m.idrestaurant, 7);
        assert_eq!(m.day.year, 2024);
        assert_eq!(m.day.month, 3);
        assert_eq!(m.day.day, 19);
    }
    assert_eq!(meals[0].foodies.len(), 2);
    assert_eq!(meals[0].foodies[0].kind, "Entrées");
    assert_eq!(
        meals[0].foodies[0].content,
        vec!["Salade verte".to_string(), "Carottes râpées".to_string()]
    );
    assert_eq!(meals[0].foodies[1].kind, "Plats");
    assert_eq!(meals[0].foodies[1].content, vec!["Poulet rôti".to_string()]);
    assert_eq!(meals[1].foodies[0].kind, "Desserts");
}

#[test]
fn page_without_menu_or_date_fails_that_venue_only() {
    // No menu container at all: the venue has no menu.
    assert!(matches!(
        extract_meals("<p>rien</p>", 1),
        Err(MealError::NoMenuFound)
    ));
    let no_date = r#"<div class="menu"><div class="meal"></div></div>"#;
    assert!(matches!(
        extract_meals(no_date, 1),
        Err(MealError::NoDateFound)
    ));
    let bad_date = r#"<div class="menu"><div class="menu_date_title">hier</div></div>"#;
    assert!(matches!(
        extract_meals(bad_date, 1),
        Err(MealError::NoDateFound)
    ));
}

#[test]
fn meal_without_title_fails_that_venue_only() {
    let html = r#"
    <div class="menu">
      <div class="menu_date_title">19 mars 2024</div>
      <div class="meal">
        <ul class="meal_foodies"><li>Entrées<ul><li>Salade</li></ul></li></ul>
      </div>
    </div>"#;
    assert!(matches!(
        extract_meals(html, 1),
        Err(MealError::NoMenuFound)
    ));
}
