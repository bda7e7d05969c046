use htcrawler::directory::Restaurant;
use htcrawler::enrich::{Foody, Meal};
use htcrawler::dates::CalendarDate;
use htcrawler::keywords::{derive_keywords, meal_keywords, Category};
use htcrawler::store::VenueStore;

fn venue(url: &str, name: &str) -> Restaurant {
    Restaurant {
        idrestaurant: None,
        url: url.to_string(),
        name: name.to_string(),
        gpscoord: Some("point(1,2)".to_string()),
        hours: None,
    }
}

fn content_of(rows: &[Restaurant]) -> Vec<(String, String, Option<String>, Option<String>)> {
    rows.iter()
        .map(|r| {
            (
                r.url.clone(),
                r.name.clone(),
                r.gpscoord.clone(),
                r.hours.clone(),
            )
        })
        .collect()
}

#[test]
fn reload_twice_with_identical_input_stores_the_same_set() {
    let scraped = vec![venue("u/a", "Resto A"), venue("u/b", "Resto B")];
    let mut store = VenueStore::new();
    store.reload(&scraped);
    let first = store.find_all();
    store.reload(&scraped);
    let second = store.find_all();
    assert_eq!(content_of(&first), content_of(&second));
    assert_eq!(second.len(), 2);
    // Old rows are fully replaced, not duplicated.
    assert_eq!(store.find_all().len(), scraped.len());
}

#[test]
fn reload_replaces_previous_content() {
    let mut store = VenueStore::new();
    store.reload(&vec![venue("u/old", "Old")]);
    store.reload(&vec![venue("u/new", "New")]);
    let rows = store.find_all();
    assert_eq!(rows.len(), 1);
    assert_eq!(rows[0].url, "u/new");
}

#[test]
fn store_assigns_identities_in_order() {
    let mut store = VenueStore::new();
    store.reload(&vec![venue("u/a", "A"), venue("u/b", "B")]);
    let rows = store.find_all();
    assert_eq!(rows[0].idrestaurant, Some(1));
    assert_eq!(rows[1].idrestaurant, Some(2));
}

#[test]
fn keywords_are_rebuilt_with_their_owner() {
    let mut store = VenueStore::new();
    store.reload(&vec![venue("u/a", "Resto U Triolet")]);
    assert_eq!(store.keywords.len(), 3);
    let ids: Vec<i64> = store.keywords.iter().map(|k| k.idrestaurant).collect();
    let owner = store.find_all()[0].idrestaurant.unwrap() as i64;
    assert!(ids.iter().all(|i| *i == owner));
    store.reload(&vec![venue("u/b", "Brasserie")]);
    // No keyword row survives its owner's reload.
    assert_eq!(store.keywords.len(), 1);
    assert_eq!(store.keywords[0].keyword, "Brasserie");
    let new_owner = store.find_all()[0].idrestaurant.unwrap() as i64;
    assert_eq!(store.keywords[0].idrestaurant, new_owner);
}

#[test]
fn name_keywords_are_whitespace_tokens() {
    let kws = derive_keywords("Resto U Triolet", 5, Category::Restaurant);
    let words: Vec<&str> = kws.iter().map(|k| k.keyword.as_str()).collect();
    assert_eq!(words, vec!["Resto", "U", "Triolet"]);
    for k in &kws {
        assert_eq!(k.idrestaurant, 5);
        assert_eq!(k.idcat, 2);
    }
}

#[test]
fn keyword_tokens_split_on_any_blank() {
    let kws = derive_keywords("Crêpes  au\tfromage\nblanc", 1, Category::Food);
    let words: Vec<&str> = kws.iter().map(|k| k.keyword.as_str()).collect();
    assert_eq!(words, vec!["Crêpes", "au", "fromage", "blanc"]);
}

#[test]
fn category_codes_match_the_schema() {
    assert_eq!(Category::Meal.to_int(), 1);
    assert_eq!(Category::Restaurant.to_int(), 2);
    assert_eq!(Category::Food.to_int(), 3);
}

#[test]
fn meal_keywords_cover_every_item_name() {
    let meal = Meal {
        typemeal: "Déjeuner".to_string(),
        foodies: vec![
            Foody {
                kind: "Entrées".to_string(),
                content: vec!["Salade verte".to_string(), "Carottes".to_string()],
            },
            Foody {
                kind: "Plats".to_string(),
                content: vec!["Poulet rôti".to_string()],
            },
        ],
        day: CalendarDate {
            year: 2024,
            month: 3,
            day: 19,
        },
        idrestaurant: 7,
    };
    let kws = meal_keywords(&meal);
    let words: Vec<&str> = kws.iter().map(|k| k.keyword.as_str()).collect();
    assert_eq!(
        words,
        vec!["Salade", "verte", "Carottes", "Poulet", "rôti"]
    );
    for k in &kws {
        assert_eq!(k.idrestaurant, 7);
        assert_eq!(k.idcat, 3);
    }
}
