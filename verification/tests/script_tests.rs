use captura::scripts::{
    clipboard_script, config_error_alert_script, copied_notification_script, helper_candidates,
    recent_item_label, saved_notification_script, thumbnail_frame_args, thumbnail_from_bytes,
    thumbnail_kind, thumbnail_rgba, ThumbnailKind,
};

#[test]
fn clipboard_script_text() {
    let path_str = "/tmp/a b.png";
    let expected = format!(
        r#"use framework "AppKit"
set pb to current application's NSPasteboard's generalPasteboard()
pb's clearContents()
set fileURL to current application's NSURL's fileURLWithPath:"{path_str}"
pb's writeObjects:{{fileURL}}"#
    );
    assert_eq!(clipboard_script(path_str), expected);
}

#[test]
fn notification_texts() {
    assert_eq!(
        saved_notification_script("x.png"),
        r#"display notification "Saved: x.png" with title "Captura" sound name "default""#
    );
    assert_eq!(
        copied_notification_script("x.png"),
        r#"display notification "Path copied: x.png" with title "Captura""#
    );
    assert_eq!(
        config_error_alert_script("bad key"),
        r#"display alert "Captura Configuration Error" message "Config error: bad key" as critical"#
    );
    assert_eq!(recent_item_label("x.png"), "  Copy: x.png");
}

#[test]
fn thumbnail_kinds() {
    assert_eq!(thumbnail_kind("png"), Some(ThumbnailKind::Image));
    assert_eq!(thumbnail_kind("JPEG"), Some(ThumbnailKind::Image));
    assert_eq!(thumbnail_kind("Mp4"), Some(ThumbnailKind::Video));
    assert_eq!(thumbnail_kind("mkv"), Some(ThumbnailKind::Video));
    assert_eq!(thumbnail_kind("txt"), None);
}

#[test]
fn thumbnail_ffmpeg_arguments() {
    assert_eq!(
        thumbnail_frame_args("/v.mp4", "/t.png"),
        vec!["-y", "-i", "/v.mp4", "-vframes", "1", "-vf", "scale=36:-1", "/t.png"]
    );
}

#[test]
fn helper_lookup_order() {
    assert_eq!(
        helper_candidates(Some("/opt/captura".to_string()), "select-region"),
        vec!["/opt/captura/select-region", "helpers/select-region"]
    );
    assert_eq!(
        helper_candidates(None, "select-region"),
        vec!["helpers/select-region"]
    );
}

fn png_bytes(width: u32, height: u32, rgba: &[u8]) -> Vec<u8> {
    let img = image::RgbaImage::from_raw(width, height, rgba.to_vec()).unwrap();
    let mut out = std::io::Cursor::new(Vec::new());
    img.write_to(&mut out, image::ImageFormat::Png).unwrap();
    out.into_inner()
}

#[test]
fn thumbnail_of_a_uniform_image_keeps_its_colour() {
    let px: Vec<u8> = [10u8, 200, 30, 255].repeat(40 * 30);
    let t = thumbnail_rgba(40, 30, px).unwrap();
    assert_eq!(t.len(), 18 * 18 * 4);
    assert!(t.chunks(4).all(|p| p == [10, 200, 30, 255]));
}

#[test]
fn thumbnail_matches_image_resize() {
    let px: Vec<u8> = (0..(7 * 5 * 4)).map(|i| (i * 37 % 256) as u8).collect();
    let expected = image::imageops::resize(
        &image::RgbaImage::from_raw(7, 5, px.clone()).unwrap(),
        18,
        18,
        image::imageops::FilterType::Lanczos3,
    )
    .into_raw();
    assert_eq!(thumbnail_rgba(7, 5, px), Some(expected));
}

#[test]
fn thumbnail_needs_every_pixel() {
    assert_eq!(thumbnail_rgba(2, 2, vec![0; 15]), None);
    assert_eq!(thumbnail_rgba(2, 2, vec![0; 17]), None);
}

#[test]
fn thumbnail_from_encoded_bytes() {
    let px: Vec<u8> = [1u8, 2, 3, 255].repeat(4 * 4);
    let png = png_bytes(4, 4, &px);
    let t = thumbnail_from_bytes(&png, "PNG").unwrap();
    assert_eq!(t.len(), 18 * 18 * 4);
    assert!(t.chunks(4).all(|p| p == [1, 2, 3, 255]));
    assert_eq!(thumbnail_from_bytes(&png, "mp4"), None);
    assert_eq!(thumbnail_from_bytes(b"not an image", "png"), None);
}
