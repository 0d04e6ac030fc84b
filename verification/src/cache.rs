//! Names of cached map images and links to the map service. Both are pure functions of a
//! site and of how its map is drawn.

use vstd::prelude::*;
use crate::entity::{Entity, EntityView};
use crate::text::{
    chars_of, decimal, lemma_number_then_stop, push_chars, push_decimal, push_str, replace_all,
    replace_chars, string_of,
};

verus! {

/// Zoom level of the maps that go with notifications.
pub const MAP_ZOOM_LEVEL: u8 = 15;

/// Width of those maps, in pixels.
pub const MAP_WIDTH: u16 = 800;

/// Height of those maps, in pixels.
pub const MAP_HEIGHT: u16 = 600;

/// Where the map service answers.
pub const MAP_SERVICE_URL: &'static str = "https://maps.googleapis.com/maps/api/staticmap";

/// How a map is drawn: its zoom level and its size in pixels.
#[derive(Clone, Copy, Debug, PartialEq, Eq, Structural)]
pub struct RenderParams {
    pub zoom: u8,
    pub width: u16,
    pub height: u16,
}

/// The way maps are drawn unless something else is asked for.
pub open spec fn standard_params() -> RenderParams {
    RenderParams { zoom: MAP_ZOOM_LEVEL, width: MAP_WIDTH, height: MAP_HEIGHT }
}

impl RenderParams {
    /// The way maps are drawn unless something else is asked for.
    pub fn standard() -> (params: RenderParams)
        ensures
            params == standard_params(),
    {
        RenderParams { zoom: MAP_ZOOM_LEVEL, width: MAP_WIDTH, height: MAP_HEIGHT }
    }
}

/// A site's name as it stands in a file name: a dash loses the blanks around it,
/// parentheses go, and every blank that is left becomes an underscore.
pub open spec fn sanitized(name: Seq<char>) -> Seq<char> {
    replace_all(
        replace_all(replace_all(replace_all(name, " - "@, "-"@), "("@, ""@), ")"@, ""@),
        " "@,
        "_"@,
    )
}

/// How a map is drawn, as the end of a file name.
pub open spec fn params_suffix(params: RenderParams) -> Seq<char> {
    decimal(params.zoom as nat) + "-"@ + decimal(params.width as nat) + "x"@ + decimal(
        params.height as nat,
    ) + ".png"@
}

/// The name of the file that caches the map of `entity` drawn with `params`.
pub open spec fn cache_key(entity: EntityView, params: RenderParams) -> Seq<char> {
    sanitized(entity.name) + "-"@ + entity.latitude + "-"@ + entity.longitude + "-"@
        + params_suffix(params)
}

/// The link under which the map service draws the map of `entity` with `params`.
pub open spec fn map_url(entity: EntityView, params: RenderParams, api_key: Seq<char>) -> Seq<
    char,
> {
    MAP_SERVICE_URL@ + "?center="@ + entity.latitude + ","@ + entity.longitude + "&zoom="@
        + decimal(params.zoom as nat) + "&size="@ + decimal(params.width as nat) + "x"@ + decimal(
        params.height as nat,
    ) + "&maptype=roadmap&markers=color:red|label:C|"@ + entity.latitude + ","@
        + entity.longitude + "&key="@ + api_key
}

/// Sanitizes a site's name for use in a file name.
pub fn sanitize_name(name: &str) -> (clean: Vec<char>)
    ensures
        clean@ == sanitized(name@),
{
    let raw = chars_of(name);
    let dashed = replace_chars(&raw, &chars_of(" - "), &chars_of("-"));
    let opened = replace_chars(&dashed, &chars_of("("), &chars_of(""));
    let closed = replace_chars(&opened, &chars_of(")"), &chars_of(""));
    replace_chars(&closed, &chars_of(" "), &chars_of("_"))
}

/// The name of the file that caches the map of `entity` drawn with `params`.
pub fn cache_filename(entity: &Entity, params: &RenderParams) -> (name: String)
    ensures
        name@ == cache_key(entity@, *params),
{
    let mut out = sanitize_name(entity.name.as_str());
    push_str(&mut out, "-");
    push_str(&mut out, entity.latitude.as_str());
    push_str(&mut out, "-");
    push_str(&mut out, entity.longitude.as_str());
    push_str(&mut out, "-");
    let mut tail: Vec<char> = Vec::new();
    push_decimal(&mut tail, params.zoom as u64);
    push_str(&mut tail, "-");
    push_decimal(&mut tail, params.width as u64);
    push_str(&mut tail, "x");
    push_decimal(&mut tail, params.height as u64);
    push_str(&mut tail, ".png");
    proof {
        assert(tail@ =~= params_suffix(*params));
    }
    push_chars(&mut out, &tail);
    string_of(&out)
}

/// The name of the file that caches the map of `entity` drawn the standard way.
pub fn generate_cache_filename(entity: &Entity) -> (name: String)
    ensures
        name@ == cache_key(entity@, standard_params()),
{
    cache_filename(entity, &RenderParams::standard())
}

/// The link under which the map service draws the map of `entity` with `params`.
pub fn map_link(entity: &Entity, params: &RenderParams, api_key: &str) -> (url: String)
    ensures
        url@ == map_url(entity@, *params, api_key@),
{
    let mut out: Vec<char> = Vec::new();
    push_str(&mut out, MAP_SERVICE_URL);
    push_str(&mut out, "?center=");
    push_str(&mut out, entity.latitude.as_str());
    push_str(&mut out, ",");
    push_str(&mut out, entity.longitude.as_str());
    push_str(&mut out, "&zoom=");
    push_decimal(&mut out, params.zoom as u64);
    push_str(&mut out, "&size=");
    push_decimal(&mut out, params.width as u64);
    push_str(&mut out, "x");
    push_decimal(&mut out, params.height as u64);
    push_str(&mut out, "&maptype=roadmap&markers=color:red|label:C|");
    push_str(&mut out, entity.latitude.as_str());
    push_str(&mut out, ",");
    push_str(&mut out, entity.longitude.as_str());
    push_str(&mut out, "&key=");
    push_str(&mut out, api_key);
    proof {
        assert(out@ =~= map_url(entity@, *params, api_key@));
    }
    string_of(&out)
}

/// The link under which the map service draws the map of `entity` the standard way.
pub fn generate_map_url_with_coordinates(entity: &Entity, api_key: &str) -> (url: String)
    ensures
        url@ == map_url(entity@, standard_params(), api_key@),
{
    map_link(entity, &RenderParams::standard(), api_key)
}

/// How the size of a map ends a file name.
pub open spec fn size_suffix(params: RenderParams) -> Seq<char> {
    decimal(params.width as nat) + ("x"@ + height_suffix(params))
}

/// How the height of a map ends a file name.
pub open spec fn height_suffix(params: RenderParams) -> Seq<char> {
    decimal(params.height as nat) + ".png"@
}

/// The end of a file name is the zoom level, a dash, and the size.
proof fn lemma_suffix_parts(params: RenderParams)
    ensures
        params_suffix(params) == decimal(params.zoom as nat) + ("-"@ + size_suffix(params)),
{
    assert(params_suffix(params) =~= decimal(params.zoom as nat) + ("-"@ + size_suffix(params)));
}

/// A text behind a one-character mark is what is left when the mark is taken off.
proof fn lemma_behind_mark(mark: Seq<char>, a: Seq<char>, b: Seq<char>)
    requires
        mark.len() == 1,
        mark + a == mark + b,
    ensures
        a == b,
{
    assert(a =~= (mark + a).skip(1));
    assert(b =~= (mark + b).skip(1));
}

/// Ways of drawing that differ in zoom, width or height end file names differently.
pub proof fn lemma_params_suffix_injective(p: RenderParams, q: RenderParams)
    requires
        params_suffix(p) == params_suffix(q),
    ensures
        p == q,
{
    lemma_suffix_parts(p);
    lemma_suffix_parts(q);
    assert(p.zoom == q.zoom && size_suffix(p) == size_suffix(q)) by {
        reveal_strlit("-");
        let x = "-"@ + size_suffix(p);
        let y = "-"@ + size_suffix(q);
        assert(x[0] == '-' && y[0] == '-');
        lemma_number_then_stop(p.zoom as nat, x, q.zoom as nat, y);
        lemma_behind_mark("-"@, size_suffix(p), size_suffix(q));
    }
    assert(p.width == q.width && height_suffix(p) == height_suffix(q)) by {
        reveal_strlit("x");
        let x = "x"@ + height_suffix(p);
        let y = "x"@ + height_suffix(q);
        assert(x[0] == 'x' && y[0] == 'x');
        lemma_number_then_stop(p.width as nat, x, q.width as nat, y);
        lemma_behind_mark("x"@, height_suffix(p), height_suffix(q));
    }
    assert(p.height == q.height) by {
        reveal_strlit(".png");
        assert(".png"@[0] == '.');
        lemma_number_then_stop(p.height as nat, ".png"@, q.height as nat, ".png"@);
    }
}

/// The name of a cached map tells how the map was drawn: one site drawn in two ways
/// that differ in zoom, width or height is cached under two names.
pub proof fn lemma_cache_key_separates_params(entity: EntityView, p: RenderParams, q: RenderParams)
    requires
        cache_key(entity, p) == cache_key(entity, q),
    ensures
        p == q,
{
    let head = sanitized(entity.name) + "-"@ + entity.latitude + "-"@ + entity.longitude + "-"@;
    assert(params_suffix(p) =~= (head + params_suffix(p)).skip(head.len() as int));
    assert(params_suffix(q) =~= (head + params_suffix(q)).skip(head.len() as int));
    lemma_params_suffix_injective(p, q);
}

} // verus!
