use camera_watch::cache::RenderParams;
use camera_watch::entity::Entity;
use camera_watch::image::{next_image_action, ImageAction, ImageEvent};

fn site() -> Entity {
    Entity::new("Test Camera - Location".to_string(), 47.0502f64.to_string(), 8.3093f64.to_string())
}

const FILE: &str = "Test_Camera-Location-47.0502-8.3093-15-800x600.png";

#[test]
fn cache_is_asked_first() {
    let action = next_image_action(&site(), &RenderParams::standard(), "key", ImageEvent::Wanted);
    assert_eq!(action, ImageAction::ReadCache { file_name: FILE.to_string() });
}

#[test]
fn cached_image_is_used_without_a_download() {
    let bytes = vec![1u8, 2, 3];
    let action = next_image_action(
        &site(),
        &RenderParams::standard(),
        "key",
        ImageEvent::CacheHit { bytes: bytes.clone() },
    );
    assert_eq!(action, ImageAction::Use { bytes });
}

#[test]
fn cache_miss_leads_to_the_map_service() {
    let action = next_image_action(&site(), &RenderParams::standard(), "key", ImageEvent::CacheMiss);
    assert_eq!(
        action,
        ImageAction::Download {
            url: "https://maps.googleapis.com/maps/api/staticmap?center=47.0502,8.3093&zoom=15&size=800x600&maptype=roadmap&markers=color:red|label:C|47.0502,8.3093&key=key".to_string()
        }
    );
}

#[test]
fn downloaded_image_is_stored_under_the_name_that_was_asked_for() {
    let bytes = vec![9u8; 4];
    let action = next_image_action(
        &site(),
        &RenderParams::standard(),
        "key",
        ImageEvent::Downloaded { bytes: bytes.clone() },
    );
    assert_eq!(action, ImageAction::StoreAndUse { file_name: FILE.to_string(), bytes });
}

#[test]
fn failed_download_means_no_image() {
    let action =
        next_image_action(&site(), &RenderParams::standard(), "key", ImageEvent::DownloadFailed);
    assert_eq!(action, ImageAction::GoWithout);
}

#[test]
fn another_zoom_or_size_asks_for_another_file() {
    let zoomed = RenderParams { zoom: 14, width: 800, height: 600 };
    let action = next_image_action(&site(), &zoomed, "key", ImageEvent::Wanted);
    assert_eq!(
        action,
        ImageAction::ReadCache {
            file_name: "Test_Camera-Location-47.0502-8.3093-14-800x600.png".to_string()
        }
    );
    let small = RenderParams { zoom: 15, width: 400, height: 300 };
    let action = next_image_action(&site(), &small, "key", ImageEvent::Wanted);
    assert_eq!(
        action,
        ImageAction::ReadCache {
            file_name: "Test_Camera-Location-47.0502-8.3093-15-400x300.png".to_string()
        }
    );
}
