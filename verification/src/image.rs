//! How the map image of a site is come by: from the cache where it is there, from the
//! map service otherwise, and then into the cache for the next time.

use vstd::prelude::*;
use crate::cache::{
    cache_filename, cache_key, lemma_cache_key_separates_params, map_link, map_url, RenderParams,
};
use crate::entity::{Entity, EntityView};

verus! {

/// What has happened so far on the way to a map image.
#[derive(Debug, PartialEq, Eq)]
pub enum ImageEvent {
    /// An image is wanted; nothing has been tried.
    Wanted,
    /// The cache holds the image.
    CacheHit { bytes: Vec<u8> },
    /// The cache does not hold the image, or could not be read.
    CacheMiss,
    /// The map service has delivered the image.
    Downloaded { bytes: Vec<u8> },
    /// The map service has not delivered.
    DownloadFailed,
}

/// What an [`ImageEvent`] is to the specifications.
pub enum ImageEventView {
    Wanted,
    CacheHit { bytes: Seq<u8> },
    CacheMiss,
    Downloaded { bytes: Seq<u8> },
    DownloadFailed,
}

impl View for ImageEvent {
    type V = ImageEventView;

    open spec fn view(&self) -> ImageEventView {
        match self {
            ImageEvent::Wanted => ImageEventView::Wanted,
            ImageEvent::CacheHit { bytes } => ImageEventView::CacheHit { bytes: bytes@ },
            ImageEvent::CacheMiss => ImageEventView::CacheMiss,
            ImageEvent::Downloaded { bytes } => ImageEventView::Downloaded { bytes: bytes@ },
            ImageEvent::DownloadFailed => ImageEventView::DownloadFailed,
        }
    }
}

/// What is to be done next on the way to a map image.
#[derive(Debug, PartialEq, Eq)]
pub enum ImageAction {
    /// Look for the file of this name in the cache.
    ReadCache { file_name: String },
    /// Ask the map service under this link.
    Download { url: String },
    /// Write the image to the cache under this name, and use it whether or not the
    /// write succeeds.
    StoreAndUse { file_name: String, bytes: Vec<u8> },
    /// Use the image.
    Use { bytes: Vec<u8> },
    /// There is no image; the message goes out without one.
    GoWithout,
}

/// What an [`ImageAction`] is to the specifications.
pub enum ImageActionView {
    ReadCache { file_name: Seq<char> },
    Download { url: Seq<char> },
    StoreAndUse { file_name: Seq<char>, bytes: Seq<u8> },
    Use { bytes: Seq<u8> },
    GoWithout,
}

impl View for ImageAction {
    type V = ImageActionView;

    open spec fn view(&self) -> ImageActionView {
        match self {
            ImageAction::ReadCache { file_name } => ImageActionView::ReadCache {
                file_name: file_name@,
            },
            ImageAction::Download { url } => ImageActionView::Download { url: url@ },
            ImageAction::StoreAndUse { file_name, bytes } => ImageActionView::StoreAndUse {
                file_name: file_name@,
                bytes: bytes@,
            },
            ImageAction::Use { bytes } => ImageActionView::Use { bytes: bytes@ },
            ImageAction::GoWithout => ImageActionView::GoWithout,
        }
    }
}

/// The next step towards the map of `entity` drawn with `params`.
///
/// The cache is asked first. What it holds is used as it is, and the map service is not
/// asked. Only when the cache has nothing is the map service asked, and what it delivers
/// is written to the cache under the name that the cache was asked for, and used. When
/// the service does not deliver there is no image.
pub open spec fn image_step(
    entity: EntityView,
    params: RenderParams,
    api_key: Seq<char>,
    event: ImageEventView,
) -> ImageActionView {
    match event {
        ImageEventView::Wanted => ImageActionView::ReadCache {
            file_name: cache_key(entity, params),
        },
        ImageEventView::CacheHit { bytes } => ImageActionView::Use { bytes },
        ImageEventView::CacheMiss => ImageActionView::Download {
            url: map_url(entity, params, api_key),
        },
        ImageEventView::Downloaded { bytes } => ImageActionView::StoreAndUse {
            file_name: cache_key(entity, params),
            bytes,
        },
        ImageEventView::DownloadFailed => ImageActionView::GoWithout,
    }
}

/// Says what is to be done next on the way to the map of `entity`: see [`image_step`].
pub fn next_image_action(
    entity: &Entity,
    params: &RenderParams,
    api_key: &str,
    event: ImageEvent,
) -> (action: ImageAction)
    ensures
        action@ == image_step(entity@, *params, api_key@, event@),
{
    match event {
        ImageEvent::Wanted => ImageAction::ReadCache { file_name: cache_filename(entity, params) },
        ImageEvent::CacheHit { bytes } => ImageAction::Use { bytes },
        ImageEvent::CacheMiss => ImageAction::Download { url: map_link(entity, params, api_key) },
        ImageEvent::Downloaded { bytes } => ImageAction::StoreAndUse {
            file_name: cache_filename(entity, params),
            bytes,
        },
        ImageEvent::DownloadFailed => ImageAction::GoWithout,
    }
}

/// What the cache answers when it is asked for the map of `entity` drawn with `params`,
/// where `files` maps the name of each file in the cache to what the file holds.
pub open spec fn cache_answer(
    files: Map<Seq<char>, Seq<u8>>,
    entity: EntityView,
    params: RenderParams,
) -> ImageEventView {
    if files.contains_key(cache_key(entity, params)) {
        ImageEventView::CacheHit { bytes: files[cache_key(entity, params)] }
    } else {
        ImageEventView::CacheMiss
    }
}

/// The files of the cache once an action has been carried out: a store has written its
/// file, and nothing else has touched the cache.
pub open spec fn files_after(files: Map<Seq<char>, Seq<u8>>, action: ImageActionView) -> Map<
    Seq<char>,
    Seq<u8>,
> {
    match action {
        ImageActionView::StoreAndUse { file_name, bytes } => files.insert(file_name, bytes),
        _ => files,
    }
}

/// What was stored for a site and a way of drawing is what the cache answers when it is
/// asked for the same site drawn the same way; asked for another zoom, width or height,
/// it answers as if nothing had been stored.
pub proof fn lemma_cache_returns_what_was_stored(
    files: Map<Seq<char>, Seq<u8>>,
    entity: EntityView,
    params: RenderParams,
    other: RenderParams,
    api_key: Seq<char>,
    bytes: Seq<u8>,
)
    ensures
        ({
            let stored = files_after(
                files,
                image_step(entity, params, api_key, ImageEventView::Downloaded { bytes }),
            );
            &&& cache_answer(stored, entity, params) == ImageEventView::CacheHit { bytes }
            &&& other != params ==> cache_answer(stored, entity, other) == cache_answer(
                files,
                entity,
                other,
            )
        }),
{
    if other != params && cache_key(entity, other) == cache_key(entity, params) {
        lemma_cache_key_separates_params(entity, other, params);
    }
}

} // verus!
