//! Reading the published page: which links on it name a site, and where the page says
//! the site is. The page is parsed by `scraper` and the position is picked out of each
//! link by `regex`; what is done with their answers is decided here.

use vstd::prelude::*;
use crate::entity::{entity_set_of, Entity, EntitySet, EntityView};
use crate::store::unknown_coordinate;
use crate::text::{join_strings, joined, same_text, string_of, trim_chars, trimmed};

verus! {

/// The CSS selector of the links that name a site.
pub const CAMERA_SELECTOR: &'static str = "#radarList li > a";

/// The attribute of a link that tells where the site is.
pub const POSITION_ATTRIBUTE: &'static str = "onclick";

/// The regular expression that picks latitude and longitude out of that attribute.
pub const FLY_TO_PATTERN: &'static str = "map\\.flyTo\\(\\[([0-9.-]+),\\s*([0-9.-]+)\\]";

/// The text of the one link in the list that names no site.
pub const RESET_LINK_TEXT: &'static str = "Kantons\u{fc}bersicht zur\u{fc}cksetzen";

/// What `scraper` selects in `page` with the CSS selector `selector`: for each element,
/// in the order in which `scraper` yields them, the texts of the text nodes below it and
/// the value of its attribute `attribute`, if it has that attribute. Nothing where
/// `scraper` does not accept the selector.
pub uninterp spec fn selected_elements(
    page: Seq<char>,
    selector: Seq<char>,
    attribute: Seq<char>,
) -> Option<Seq<(Seq<Seq<char>>, Option<Seq<char>>)>>;

/// What `regex` captures at the leftmost match of `pattern` in `haystack`: the text of
/// each group, the whole match first, with nothing for a group that took no part in the
/// match. Nothing at all where there is no match or `regex` does not accept the pattern.
pub uninterp spec fn regex_captures(pattern: Seq<char>, haystack: Seq<char>) -> Option<
    Seq<Option<Seq<char>>>,
>;

/// Parses `page` with `scraper::Html::parse_document`, selects with
/// `scraper::Selector::parse` and `Html::select`, and reads each selected element with
/// `ElementRef::text` and `Element::attr`. The result depends on the three arguments
/// alone and is what [`selected_elements`] names.
#[verifier::external_body]
fn select_elements(page: &str, selector: &str, attribute: &str) -> (found: Option<
    Vec<(Vec<String>, Option<String>)>,
>)
    ensures
        found.deep_view() == selected_elements(page@, selector@, attribute@),
{
    let selector = scraper::Selector::parse(selector).ok()?;
    let document = scraper::Html::parse_document(page);
    let elements = document.select(&selector);
    Some(
        elements.map(
            |element|
                (
                    element.text().map(|text| text.to_string()).collect(),
                    element.value().attr(attribute).map(|value| value.to_string()),
                ),
        ).collect(),
    )
}

/// Compiles `pattern` with `regex::Regex::new` and searches `haystack` with
/// `Regex::captures`. The result depends on the two arguments alone and is what
/// [`regex_captures`] names.
#[verifier::external_body]
fn capture_groups(pattern: &str, haystack: &str) -> (groups: Option<Vec<Option<String>>>)
    ensures
        groups.deep_view() == regex_captures(pattern@, haystack@),
{
    let regex = regex::Regex::new(pattern).ok()?;
    regex.captures(haystack).map(
        |captures| captures.iter().map(|group| group.map(|found| found.as_str().to_string())).collect(),
    )
}

/// A link that names a site, and the position that goes with it, if any: latitude and
/// longitude as decimal text.
#[derive(Debug, PartialEq, Eq)]
pub struct Sighting {
    pub name: String,
    pub position: Option<(String, String)>,
}

/// What a [`Sighting`] is to the specifications.
pub struct SightingView {
    pub name: Seq<char>,
    pub position: Option<(Seq<char>, Seq<char>)>,
}

impl View for Sighting {
    type V = SightingView;

    open spec fn view(&self) -> SightingView {
        SightingView { name: self.name@, position: self.position.deep_view() }
    }
}

impl DeepView for Sighting {
    type V = SightingView;

    open spec fn deep_view(&self) -> SightingView {
        self@
    }
}

/// Latitude and longitude as the pattern's two groups hold them; nothing where there was
/// no match or a group is missing.
pub open spec fn fly_to_arguments(groups: Option<Seq<Option<Seq<char>>>>) -> Option<
    (Seq<char>, Seq<char>),
> {
    match groups {
        Some(found) => if found.len() >= 3 && found[1] is Some && found[2] is Some {
            Some((found[1]->0, found[2]->0))
        } else {
            None
        },
        None => None,
    }
}

/// The name that a link shows: the texts of the text nodes below it with a blank
/// between each two of them, and no white space at either end.
pub open spec fn anchor_name(texts: Seq<Seq<char>>) -> Seq<char> {
    trimmed(joined(texts, " "@))
}

/// Whether a link of this name names a site: it is not empty, and it is not the link
/// that resets the list.
pub open spec fn is_site_name(name: Seq<char>) -> bool {
    name.len() > 0 && name != RESET_LINK_TEXT@
}

/// The position that a link's attribute tells of, if the link has the attribute and
/// the pattern is found in it.
pub open spec fn position_told(attribute: Option<Seq<char>>) -> Option<(Seq<char>, Seq<char>)> {
    match attribute {
        Some(value) => fly_to_arguments(regex_captures(FLY_TO_PATTERN@, value)),
        None => None,
    }
}

/// The sightings among `anchors`, in their order: one for each link that names a site.
pub open spec fn sightings_among(anchors: Seq<(Seq<Seq<char>>, Option<Seq<char>>)>) -> Seq<
    SightingView,
>
    decreases anchors.len(),
{
    if anchors.len() == 0 {
        Seq::empty()
    } else {
        let earlier = sightings_among(anchors.drop_last());
        let name = anchor_name(anchors.last().0);
        if is_site_name(name) {
            earlier.push(SightingView { name, position: position_told(anchors.last().1) })
        } else {
            earlier
        }
    }
}

/// Picks latitude and longitude out of what the pattern captured.
pub fn coordinates_from_groups(groups: Option<Vec<Option<String>>>) -> (position: Option<
    (String, String),
>)
    ensures
        position.deep_view() == fly_to_arguments(groups.deep_view()),
{
    match groups {
        Some(found) => {
            if found.len() < 3 {
                return None;
            }
            match (&found[1], &found[2]) {
                (Some(latitude), Some(longitude)) => Some((latitude.clone(), longitude.clone())),
                _ => None,
            }
        },
        None => None,
    }
}

/// Picks latitude and longitude, as decimal text, out of the attribute of a link.
pub fn extract_coordinates_from_onclick(onclick: &str) -> (position: Option<(String, String)>)
    ensures
        position.deep_view() == position_told(Some(onclick@)),
{
    coordinates_from_groups(capture_groups(FLY_TO_PATTERN, onclick))
}

/// The sightings among the links that were selected on a page.
pub fn sightings_of(anchors: &Vec<(Vec<String>, Option<String>)>) -> (sightings: Vec<Sighting>)
    ensures
        sightings.deep_view() == sightings_among(anchors.deep_view()),
{
    let ghost all = anchors.deep_view();
    let mut sightings: Vec<Sighting> = Vec::new();
    let mut i: usize = 0;
    proof {
        assert(all.take(0) =~= Seq::<(Seq<Seq<char>>, Option<Seq<char>>)>::empty());
        assert(sightings.deep_view() =~= Seq::<SightingView>::empty());
    }
    while i < anchors.len()
        invariant
            i <= anchors.len(),
            all == anchors.deep_view(),
            sightings.deep_view() == sightings_among(all.take(i as int)),
        decreases anchors.len() - i,
    {
        let ghost so_far = sightings.deep_view();
        proof {
            let prefix = all.take(i + 1);
            assert(prefix.drop_last() =~= all.take(i as int));
            assert(prefix.last() == all[i as int]);
            assert(all[i as int] == anchors@[i as int].deep_view());
        }
        let name = trim_chars(&join_strings(&anchors[i].0, " "));
        let names_site = name.len() > 0 && !same_text(string_of(&name).as_str(), RESET_LINK_TEXT);
        if names_site {
            let position = match &anchors[i].1 {
                Some(onclick) => extract_coordinates_from_onclick(onclick.as_str()),
                None => None,
            };
            let sighting = Sighting { name: string_of(&name), position };
            proof {
                assert(sighting@ == SightingView {
                    name: anchor_name(all[i as int].0),
                    position: position_told(all[i as int].1),
                });
            }
            sightings.push(sighting);
            proof {
                assert(sightings.deep_view() =~= so_far.push(sighting@));
            }
        }
        i += 1;
    }
    proof {
        assert(all.take(i as int) =~= all);
    }
    sightings
}

/// The sightings on `page`, in the order in which the page is read; nothing where the
/// selector is not accepted.
pub fn scan_page(page: &str) -> (sightings: Option<Vec<Sighting>>)
    ensures
        sightings.deep_view() == (match selected_elements(
            page@,
            CAMERA_SELECTOR@,
            POSITION_ATTRIBUTE@,
        ) {
            Some(anchors) => Some(sightings_among(anchors)),
            None => None,
        }),
{
    match select_elements(page, CAMERA_SELECTOR, POSITION_ATTRIBUTE) {
        Some(anchors) => Some(sightings_of(&anchors)),
        None => None,
    }
}

/// The site that a sighting stands for: at the position that came with it, or at an
/// unknown position where none did.
pub open spec fn site_of(sighting: SightingView) -> EntityView {
    match sighting.position {
        Some((latitude, longitude)) => EntityView { name: sighting.name, latitude, longitude },
        None => EntityView {
            name: sighting.name,
            latitude: unknown_coordinate(),
            longitude: unknown_coordinate(),
        },
    }
}

/// The listing that a page's sightings make: one site per name, the later sighting of a
/// name in place of the earlier.
pub fn entities_from_sightings(sightings: Vec<Sighting>) -> (listing: EntitySet)
    ensures
        listing@ == entity_set_of(sightings.deep_view().map_values(|s: SightingView| site_of(s))),
{
    let ghost seen = sightings.deep_view();
    let ghost sites = seen.map_values(|s: SightingView| site_of(s));
    let mut entities: Vec<Entity> = Vec::new();
    let mut i: usize = 0;
    proof {
        assert(entities.deep_view() =~= sites.take(0));
    }
    while i < sightings.len()
        invariant
            i <= sightings.len(),
            seen == sightings.deep_view(),
            sites == seen.map_values(|s: SightingView| site_of(s)),
            entities.deep_view() == sites.take(i as int),
        decreases sightings.len() - i,
    {
        let ghost so_far = entities.deep_view();
        let entity = match &sightings[i].position {
            Some((latitude, longitude)) => Entity {
                name: sightings[i].name.clone(),
                latitude: latitude.clone(),
                longitude: longitude.clone(),
            },
            None => Entity {
                name: sightings[i].name.clone(),
                latitude: "0".to_owned(),
                longitude: "0".to_owned(),
            },
        };
        proof {
            assert(seen[i as int] == sightings@[i as int]@);
            assert(entity@ == sites[i as int]);
        }
        entities.push(entity);
        proof {
            assert(entities.deep_view() =~= so_far.push(entity@));
            assert(entities.deep_view() =~= sites.take(i + 1));
        }
        i += 1;
    }
    proof {
        assert(sites.take(i as int) =~= sites);
    }
    EntitySet::from_entities(entities)
}

} // verus!
