use captura::capture::{
    pack_rows, row_offsets_ok, screencapture_args, CaptureError, CaptureRegion, Capturer, GrabbedImage,
};

#[test]
fn capturer_checks_the_display_exists() {
    assert!(Capturer::new(CaptureRegion::Display(0), true, 1).is_ok());
    assert_eq!(
        Capturer::new(CaptureRegion::Display(1), true, 1).unwrap_err(),
        CaptureError::DisplayNotFound(1)
    );
    let rect = CaptureRegion::Rect { display: 2, x: 0, y: 0, width: 10, height: 10 };
    assert_eq!(Capturer::new(rect, false, 2).unwrap_err(), CaptureError::DisplayNotFound(2));
    let c = Capturer::new(rect, false, 3).unwrap();
    assert_eq!(c.region(), rect);
    assert!(!c.include_cursor());
}

#[test]
fn rectangles_are_clipped_to_the_display() {
    let whole = Capturer::new(CaptureRegion::Display(0), true, 1).unwrap();
    assert_eq!(whole.clipped_rect_size(1920, 1080), None);
    let rect = CaptureRegion::Rect { display: 0, x: 1800, y: 1000, width: 300, height: 50 };
    let c = Capturer::new(rect, true, 1).unwrap();
    assert_eq!(c.clipped_rect_size(1920, 1080), Some((120, 50)));
    let outside = CaptureRegion::Rect { display: 0, x: 2000, y: 2000, width: 30, height: 30 };
    let c = Capturer::new(outside, true, 1).unwrap();
    assert_eq!(c.clipped_rect_size(1920, 1080), Some((0, 0)));
}

#[test]
fn row_padding_is_dropped() {
    // Two rows of one pixel each, padded to 6 bytes per row.
    let raw = [1u8, 2, 3, 4, 99, 99, 5, 6, 7, 8, 99, 99];
    assert_eq!(pack_rows(&raw, 1, 2, 6), vec![1, 2, 3, 4, 5, 6, 7, 8]);
    // A row that does not fit in the buffer is skipped.
    assert_eq!(pack_rows(&raw[..9], 1, 2, 6), vec![1, 2, 3, 4]);
    assert_eq!(pack_rows(&raw, 1, 0, 6), Vec::<u8>::new());
}

#[test]
fn capture_frame_packs_the_grabbed_image() {
    let c = Capturer::new(CaptureRegion::Display(0), true, 1).unwrap();
    let img = GrabbedImage { data: (0u8..24).collect(), width: 2, height: 2, bytes_per_row: 12 };
    let f = c.capture_frame(Some(img), 77).unwrap();
    assert_eq!(f.data, vec![0, 1, 2, 3, 4, 5, 6, 7, 12, 13, 14, 15, 16, 17, 18, 19]);
    assert_eq!((f.width, f.height, f.timestamp_ns), (2, 2, 77));
}

#[test]
fn capture_frame_without_image_fails() {
    let c = Capturer::new(CaptureRegion::Display(0), true, 1).unwrap();
    assert_eq!(
        c.capture_frame(None, 0).unwrap_err(),
        CaptureError::CaptureFailed("CGWindowListCreateImage returned null".to_string())
    );
}

#[test]
fn image_shape_limits() {
    assert!(row_offsets_ok(1920, 1080, 7680));
    assert!(row_offsets_ok(0, 0, usize::MAX));
    assert!(!row_offsets_ok(65536, 65536, 262144));
    assert!(!row_offsets_ok(1, 3, usize::MAX));
}

#[test]
fn screencapture_arguments() {
    assert_eq!(
        screencapture_args(&CaptureRegion::Display(0), true, "/tmp/a.png"),
        vec!["-C", "-D", "1", "/tmp/a.png"]
    );
    assert_eq!(
        screencapture_args(&CaptureRegion::Display(2), false, "/tmp/a.png"),
        vec!["-D", "3", "/tmp/a.png"]
    );
    let rect = CaptureRegion::Rect { display: 0, x: 10, y: 20, width: 300, height: 400 };
    assert_eq!(screencapture_args(&rect, false, "out.png"), vec!["-R", "10,20,300,400", "out.png"]);
}
