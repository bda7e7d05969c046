use htcrawler::correlate::{correlate, RestaurantDetails};
use htcrawler::directory::Restaurant;
use htcrawler::enrich::{assemble_details, coords_from_attrs, DetailError};

fn cand(url: &str, name: &str) -> Restaurant {
    Restaurant {
        idrestaurant: None,
        url: url.to_string(),
        name: name.to_string(),
        gpscoord: None,
        hours: None,
    }
}

fn det(url: &str, gps: &str, hours: &str) -> RestaurantDetails {
    RestaurantDetails {
        restaurant: url.to_string(),
        gps: gps.to_string(),
        hours: hours.to_string(),
    }
}

#[test]
fn results_join_to_their_candidate_by_url() {
    let cands = vec![cand("u/a", "A"), cand("u/b", "B"), cand("u/c", "C")];
    let dets = vec![
        det("u/c", "point(3,4)", "09:00 - 10:00"),
        det("u/a", "point(1,2)", ""),
    ];
    let out = correlate(&cands, &dets);
    assert_eq!(out.len(), 2);
    assert_eq!(out[0].name, "C");
    assert_eq!(out[0].gpscoord, Some("point(3,4)".to_string()));
    assert_eq!(out[0].hours, Some("09:00 - 10:00".to_string()));
    assert_eq!(out[1].name, "A");
    assert_eq!(out[1].gpscoord, Some("point(1,2)".to_string()));
    // A failed hours concern leaves the field absent, not empty.
    assert_eq!(out[1].hours, None);
}

#[test]
fn permuted_completion_order_joins_the_same_set() {
    let cands = vec![cand("u/a", "A"), cand("u/b", "B"), cand("u/c", "C")];
    let d1 = det("u/a", "point(1,1)", "h1");
    let d2 = det("u/b", "point(2,2)", "h2");
    let d3 = det("u/c", "point(3,3)", "h3");
    let order1 = vec![d1.clone(), d2.clone(), d3.clone()];
    let order2 = vec![d3.clone(), d1.clone(), d2.clone()];
    let mut out1 = correlate(&cands, &order1);
    let mut out2 = correlate(&cands, &order2);
    out1.sort_by(|x, y| x.url.cmp(&y.url));
    out2.sort_by(|x, y| x.url.cmp(&y.url));
    assert_eq!(out1, out2);
    assert_eq!(out1.len(), 3);
}

#[test]
fn unmatched_result_is_silently_dropped() {
    let cands = vec![cand("u/a", "A")];
    let dets = vec![
        det("u/zzz", "point(9,9)", "h"),
        det("u/a", "point(1,1)", "h"),
    ];
    let out = correlate(&cands, &dets);
    assert_eq!(out.len(), 1);
    assert_eq!(out[0].name, "A");
}

#[test]
fn venue_without_coordinates_is_excluded_even_with_hours() {
    let cands = vec![cand("u/a", "A"), cand("u/b", "B")];
    let dets = vec![det("u/a", "", "11:30 - 13:30"), det("u/b", "point(1,1)", "")];
    let out = correlate(&cands, &dets);
    assert_eq!(out.len(), 1);
    assert_eq!(out[0].name, "B");
}

#[test]
fn one_failed_task_leaves_the_other_results_intact() {
    let cands = vec![cand("u/a", "A"), cand("u/b", "B"), cand("u/c", "C")];
    // Task b fails both concerns; its failure is absorbed into an empty
    // record instead of aborting the run.
    let ok_a = assemble_details(
        coords_from_attrs("u/a", Some("1".to_string()), Some("2".to_string())),
        Ok("08:00 - 09:00".to_string()),
    );
    let failed_b = assemble_details(
        Err(DetailError::NoCoordinatesFound),
        Err(DetailError::NoHoursFound),
    );
    let ok_c = assemble_details(
        coords_from_attrs("u/c", Some("5".to_string()), Some("6".to_string())),
        Err(DetailError::NoHoursFound),
    );
    let dets = vec![ok_a, failed_b, ok_c];
    let out = correlate(&cands, &dets);
    assert_eq!(out.len(), 2);
    assert_eq!(out[0].name, "A");
    assert_eq!(out[0].gpscoord, Some("point(1,2)".to_string()));
    assert_eq!(out[1].name, "C");
    assert_eq!(out[1].gpscoord, Some("point(5,6)".to_string()));
    assert_eq!(out[1].hours, None);
}

#[test]
fn later_candidate_with_same_url_wins() {
    // The pre-dispatch map is keyed by URL; a later insert overwrites.
    let cands = vec![cand("u/a", "Old"), cand("u/a", "New")];
    let dets = vec![det("u/a", "point(1,1)", "h")];
    let out = correlate(&cands, &dets);
    assert_eq!(out.len(), 1);
    assert_eq!(out[0].name, "New");
}
