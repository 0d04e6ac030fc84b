use camera_watch::entity::Entity;
use camera_watch::page::{
    coordinates_from_groups, entities_from_sightings, extract_coordinates_from_onclick, scan_page,
    sightings_of, Sighting, CAMERA_SELECTOR, POSITION_ATTRIBUTE, RESET_LINK_TEXT,
};

fn pair(latitude: &str, longitude: &str) -> Option<(String, String)> {
    Some((latitude.to_string(), longitude.to_string()))
}

fn sighting(name: &str, position: Option<(String, String)>) -> Sighting {
    Sighting { name: name.to_string(), position }
}

fn site(name: &str, latitude: &str, longitude: &str) -> Entity {
    Entity::new(name.to_string(), latitude.to_string(), longitude.to_string())
}

const PAGE: &str = r##"<html><body>
<ul id="other"><li><a onclick="map.flyTo([1.0, 2.0], 16)">Elsewhere</a></li></ul>
<ul id="radarList">
  <li><a href="#" onclick="map.flyTo([47.0357531942389, 8.16251290734679], 16,{animate: false})">  Luzern - Seebr&uuml;cke </a></li>
  <li><a href="#" onclick="resetView()">Kantons&uuml;bersicht zur&uuml;cksetzen</a></li>
  <li><a href="#">Kriens <b>Zentrum</b></a></li>
  <li><a href="#" onclick="map.flyTo([-0.5,7], 3)">Emmen</a></li>
  <li><a href="#" onclick="map.flyTo([1, 2])">   </a></li>
  <li><span><a onclick="map.flyTo([3.0, 4.0], 16)">Nested deeper</a></span></li>
  <li><a href="#" onclick="map.panTo([5.0, 6.0])">Horw</a></li>
</ul>
</body></html>"##;

#[test]
fn constants_name_the_list_and_its_attribute() {
    assert_eq!(CAMERA_SELECTOR, "#radarList li > a");
    assert_eq!(POSITION_ATTRIBUTE, "onclick");
    assert_eq!(RESET_LINK_TEXT, "Kantons\u{fc}bersicht zur\u{fc}cksetzen");
}

#[test]
fn onclick_gives_latitude_and_longitude() {
    assert_eq!(
        extract_coordinates_from_onclick(
            "map.flyTo([47.0357531942389, 8.16251290734679], 16,{animate: false})"
        ),
        pair("47.0357531942389", "8.16251290734679")
    );
    assert_eq!(extract_coordinates_from_onclick("x; map.flyTo([-1.5,2.]);"), pair("-1.5", "2."));
    assert_eq!(
        extract_coordinates_from_onclick("map.flyTo([1,\n\t 2]) map.flyTo([3, 4])"),
        pair("1", "2")
    );
}

#[test]
fn onclick_without_the_call_gives_nothing() {
    assert_eq!(extract_coordinates_from_onclick(""), None);
    assert_eq!(extract_coordinates_from_onclick("map.flyTo(47.0, 8.1)"), None);
    assert_eq!(extract_coordinates_from_onclick("map.flyTo([47.0; 8.1])"), None);
    assert_eq!(extract_coordinates_from_onclick("mapXflyTo([47.0, 8.1])"), None);
    assert_eq!(extract_coordinates_from_onclick("map.flyTo([a, b])"), None);
}

#[test]
fn groups_give_a_position_only_when_both_are_there() {
    let text = |s: &str| Some(s.to_string());
    assert_eq!(coordinates_from_groups(None), None);
    assert_eq!(coordinates_from_groups(Some(vec![])), None);
    assert_eq!(coordinates_from_groups(Some(vec![text("all"), text("1")])), None);
    assert_eq!(coordinates_from_groups(Some(vec![text("all"), None, text("2")])), None);
    assert_eq!(coordinates_from_groups(Some(vec![text("all"), text("1"), None])), None);
    assert_eq!(
        coordinates_from_groups(Some(vec![text("all"), text("1"), text("2")])),
        pair("1", "2")
    );
    assert_eq!(
        coordinates_from_groups(Some(vec![None, text("1"), text("2"), text("3")])),
        pair("1", "2")
    );
}

#[test]
fn page_is_scanned_for_the_links_of_the_list() {
    let sightings = scan_page(PAGE).unwrap();
    assert_eq!(
        sightings,
        vec![
            sighting("Luzern - Seebr\u{fc}cke", pair("47.0357531942389", "8.16251290734679")),
            sighting("Kriens  Zentrum", None),
            sighting("Emmen", pair("-0.5", "7")),
            sighting("Horw", None),
        ]
    );
}

#[test]
fn page_without_the_list_has_no_sightings() {
    assert_eq!(scan_page("<html><body><p>maintenance</p></body></html>"), Some(vec![]));
    assert_eq!(scan_page(""), Some(vec![]));
}

#[test]
fn links_are_named_by_their_joined_and_trimmed_texts() {
    let anchors = vec![
        (vec![" A".to_string(), "B ".to_string()], Some("map.flyTo([1, 2])".to_string())),
        (vec![], Some("map.flyTo([1, 2])".to_string())),
        (vec![" ".to_string(), "\n".to_string()], None),
        (vec![RESET_LINK_TEXT.to_string()], None),
        (vec!["C".to_string()], Some("nothing".to_string())),
        (vec![format!(" {} ", RESET_LINK_TEXT)], None),
        (vec![RESET_LINK_TEXT.to_string(), "x".to_string()], None),
    ];
    assert_eq!(
        sightings_of(&anchors),
        vec![
            sighting("A B", pair("1", "2")),
            sighting("C", None),
            sighting(&format!("{} x", RESET_LINK_TEXT), None),
        ]
    );
}

#[test]
fn sightings_make_a_listing_with_one_site_per_name() {
    let listing = entities_from_sightings(vec![
        sighting("B", pair("1.5", "2.5")),
        sighting("A", None),
        sighting("B", pair("3.5", "4.5")),
    ]);
    assert_eq!(listing.entities(), &vec![site("A", "0", "0"), site("B", "3.5", "4.5")]);
    assert!(entities_from_sightings(vec![]).is_empty());
}
