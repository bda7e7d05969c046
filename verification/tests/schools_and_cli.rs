use htcrawler::cli::{App, Command, PingAction};
use htcrawler::directory::Restaurant;
use htcrawler::enrich::eligible_venues;
use htcrawler::schools::{convert_to_school, filter_public_schools, SchoolRecord};

fn rec(nom: &str, sigle: Option<&str>, statut: &str) -> SchoolRecord {
    SchoolRecord {
        nom: nom.to_string(),
        sigle: sigle.map(|s| s.to_string()),
        statut: statut.to_string(),
        coords: "(43.6,3.8)".to_string(),
    }
}

#[test]
fn only_public_institutions_are_kept() {
    let schools = vec![
        rec("Université A", None, "Public"),
        rec("École B", None, "Privé sous contrat"),
        rec("Institut C", None, "Établissement Public"),
        rec("École D", None, "public"),
    ];
    let kept = filter_public_schools(schools);
    let names: Vec<&str> = kept.iter().map(|r| r.nom.as_str()).collect();
    // The status text must contain "Public" literally; lower-case
    // "public" does not.
    assert_eq!(names, vec!["Université A", "Institut C"]);
}

#[test]
fn short_name_is_preferred_for_display() {
    let with_sigle = convert_to_school(rec("Université de Montpellier", Some("UM"), "Public"));
    assert_eq!(with_sigle.name, "UM");
    assert_eq!(with_sigle.long_name, "Université de Montpellier");
    assert_eq!(with_sigle.coords, "(43.6,3.8)");
    assert_eq!(with_sigle.idschool, 0);

    let without = convert_to_school(rec("Université de Montpellier", None, "Public"));
    assert_eq!(without.name, "Université de Montpellier");
    assert_eq!(without.long_name, "Université de Montpellier");
}

#[test]
fn command_labels() {
    assert_eq!(Command::Restaurants.as_str(), "restaurants");
    assert_eq!(Command::Meals.as_str(), "meals");
    assert_eq!(Command::Up.as_str(), "up");
    assert_eq!(Command::Ping.as_str(), "ping");
    assert_eq!(Command::Bootstrap.as_str(), "bootstrap");
}

#[test]
fn app_carries_action_and_ping_flag() {
    let app = App {
        action: Command::Restaurants,
        ping: true,
    };
    assert_eq!(app.action, Command::Restaurants);
    assert!(app.ping);
}

#[test]
fn ping_action_keeps_its_url() {
    let p = PingAction::new("https://www.crous-montpellier.fr/se-restaurer/ou-manger/");
    assert_eq!(p.url, "https://www.crous-montpellier.fr/se-restaurer/ou-manger/");
}

#[test]
fn only_persisted_venues_with_urls_are_enriched_for_menus() {
    let rows = vec![
        Restaurant {
            idrestaurant: Some(1),
            url: "u/a".to_string(),
            name: "A".to_string(),
            gpscoord: None,
            hours: None,
        },
        Restaurant {
            idrestaurant: None,
            url: "u/b".to_string(),
            name: "B".to_string(),
            gpscoord: None,
            hours: None,
        },
        Restaurant {
            idrestaurant: Some(3),
            url: "".to_string(),
            name: "C".to_string(),
            gpscoord: None,
            hours: None,
        },
    ];
    let eligible = eligible_venues(&rows);
    assert_eq!(eligible.len(), 1);
    assert_eq!(eligible[0].name, "A");
}
