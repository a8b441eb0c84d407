//! The resize policy, the PNG-to-WebP transcoding, the asset paths, and the
//! idempotent per-asset lifecycle.

use riic_fetch::assets::asset_target_path;
use riic_fetch::assets::asset_url;
use riic_fetch::assets::skill_icon_ids;
use riic_fetch::assets::AssetAction;
use riic_fetch::assets::AssetEvent;
use riic_fetch::assets::AssetFamily;
use riic_fetch::assets::AssetState;
use riic_fetch::assets::AssetTask;
use riic_fetch::base::Skill;
use riic_fetch::errors::PipelineError;
use riic_fetch::table::Table;
use riic_fetch::transcode::process_image;
use riic_fetch::transcode::resize_dims;

fn png_bytes(width: u32, height: u32) -> Vec<u8> {
    let img = image::RgbaImage::from_pixel(width, height, image::Rgba([10, 200, 30, 255]));
    let mut out = std::io::Cursor::new(Vec::new());
    image::DynamicImage::ImageRgba8(img)
        .write_to(&mut out, image::ImageFormat::Png)
        .unwrap();
    out.into_inner()
}

#[test]
fn a_large_enough_image_is_never_resized() {
    assert_eq!(resize_dims(80, 80, 60), Some((80, 80)));
    assert_eq!(resize_dims(60, 200, 60), Some((60, 200)));
}

#[test]
fn a_small_image_is_upscaled_uniformly() {
    assert_eq!(resize_dims(40, 50, 60), Some((60, 75)));
    assert_eq!(resize_dims(50, 40, 60), Some((75, 60)));
}

#[test]
fn transcoding_applies_the_resize_policy() {
    let bytes = png_bytes(40, 50);
    let asset = process_image(&bytes, 60, 80).unwrap();
    assert_eq!(asset.width, 60);
    assert_eq!(asset.height, 75);
    let round = image::load_from_memory_with_format(&asset.bytes, image::ImageFormat::WebP)
        .unwrap();
    assert_eq!(image::GenericImageView::dimensions(&round), (60, 75));
}

#[test]
fn transcoding_passes_a_large_image_through_at_its_size() {
    let bytes = png_bytes(80, 80);
    let asset = process_image(&bytes, 60, 80).unwrap();
    assert_eq!(asset.width, 80);
    assert_eq!(asset.height, 80);
    let round = image::load_from_memory_with_format(&asset.bytes, image::ImageFormat::WebP)
        .unwrap();
    assert_eq!(image::GenericImageView::dimensions(&round), (80, 80));
}

#[test]
fn malformed_bytes_are_a_decode_error() {
    let err = process_image(&vec![1, 2, 3, 4], 60, 80).unwrap_err();
    assert!(matches!(err, PipelineError::Decode(_)));
}

#[test]
fn an_already_materialized_asset_does_no_work() {
    let mut task = AssetTask::start();
    assert!(matches!(task.state, AssetState::Checking));
    let action = task.step(AssetEvent::Checked(true), 60, 80);
    assert!(matches!(action, AssetAction::Finished));
    assert!(matches!(task.state, AssetState::Done));
    assert!(task.error.is_none());
    // A terminal task ignores further events: nothing is fetched or written.
    let late = task.step(AssetEvent::Fetched(Ok(png_bytes(8, 8))), 60, 80);
    assert!(matches!(late, AssetAction::Idle));
    assert!(matches!(task.state, AssetState::Done));
}

#[test]
fn a_missing_asset_is_fetched_transcoded_and_written() {
    let mut task = AssetTask::start();
    let action = task.step(AssetEvent::Checked(false), 60, 80);
    assert!(matches!(action, AssetAction::Fetch));
    let action = task.step(AssetEvent::Fetched(Ok(png_bytes(40, 50))), 60, 80);
    match action {
        AssetAction::Write(asset) => {
            assert_eq!(asset.width, 60);
            assert_eq!(asset.height, 75);
        }
        _ => panic!("expected a write action"),
    }
    let action = task.step(AssetEvent::Written(Ok(())), 60, 80);
    assert!(matches!(action, AssetAction::Finished));
    assert!(matches!(task.state, AssetState::Done));
}

#[test]
fn a_transport_failure_carries_the_first_error() {
    let mut task = AssetTask::start();
    task.step(AssetEvent::Checked(false), 60, 80);
    let action = task.step(
        AssetEvent::Fetched(Err(PipelineError::Transport("timed out".to_string()))),
        60,
        80,
    );
    assert!(matches!(action, AssetAction::Finished));
    assert!(matches!(task.state, AssetState::Failed));
    assert!(matches!(task.error, Some(PipelineError::Transport(_))));
}

#[test]
fn target_paths_and_remote_locations() {
    assert_eq!(asset_target_path("icons", "char_1"), "icons/char_1.webp");
    assert_eq!(
        asset_url(&AssetFamily::SkillIcon, "sk"),
        "https://raw.githubusercontent.com/astral4/arkdata/main/assets/torappu/dynamicassets/arts/building/skills/sk.png"
    );
    assert_eq!(
        AssetFamily::OperatorAvatar.remote_dir(),
        "torappu/dynamicassets/arts/charavatars"
    );
}

#[test]
fn skill_icon_ids_are_deduplicated_in_first_seen_order() {
    let mut t: Table<Skill> = Table::new();
    t.insert(
        "a".to_string(),
        Skill { name: String::new(), description: String::new(), icon_id: "i1".to_string() },
    );
    t.insert(
        "b".to_string(),
        Skill { name: String::new(), description: String::new(), icon_id: "i2".to_string() },
    );
    t.insert(
        "c".to_string(),
        Skill { name: String::new(), description: String::new(), icon_id: "i1".to_string() },
    );
    assert_eq!(skill_icon_ids(&t), vec!["i1".to_string(), "i2".to_string()]);
}

#[test]
fn a_target_beyond_the_webp_bound_is_an_encode_error() {
    // A 4x5 image upscaled to a 20000-pixel minimum dimension stays within
    // the pixel width but exceeds what the WebP container can hold.
    let bytes = png_bytes(4, 5);
    let err = process_image(&bytes, 20000, 80).unwrap_err();
    assert!(matches!(err, PipelineError::Encode(_)));
}
