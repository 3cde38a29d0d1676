use live_ocr_translator::capture::{
    capture_box, capture_region, pack_rows, region_size, CaptureBox, WindowRect,
};
use live_ocr_translator::capture_error::{err_to_string, WindowsCaptureError};

fn rect(left: i32, top: i32, right: i32, bottom: i32) -> WindowRect {
    WindowRect { left, top, right, bottom }
}

#[test]
fn capture_region_defaults_to_the_monitor() {
    let r = capture_region(None, 1920, 1080);
    assert_eq!((r.left, r.top, r.right, r.bottom), (0, 0, 1920, 1080));
    let asked = rect(10, 20, 110, 70);
    let r = capture_region(Some(&asked), 1920, 1080);
    assert_eq!((r.left, r.top, r.right, r.bottom), (10, 20, 110, 70));
}

#[test]
fn region_size_of_rectangles() {
    let s = region_size(&rect(10, 20, 110, 70));
    assert_eq!((s.width, s.height), (100, 50));
    let full = region_size(&capture_region(None, 800, 600));
    assert_eq!((full.width, full.height), (800, 600));
    let inverted = region_size(&rect(5, 5, 4, 5));
    assert_eq!((inverted.width, inverted.height), (u32::MAX, 0));
}

#[test]
fn capture_box_casts_edges() {
    let b = capture_box(&rect(1, 2, 3, 4));
    assert_eq!(b, CaptureBox { left: 1, top: 2, front: 0, right: 3, bottom: 4, back: 1 });
    let b = capture_box(&rect(-1, 0, 0, 0));
    assert_eq!(b.left, u32::MAX);
}

#[test]
fn pack_rows_drops_row_padding() {
    // Two rows of one pixel each, rows 8 bytes apart in the mapped texture.
    let mapped: Vec<u8> = (0u8..16).collect();
    let bits = pack_rows(&mapped, 8, 1, 3, 2);
    assert_eq!(bits, vec![0, 1, 2, 3, 8, 9, 10, 11, 0, 0, 0, 0]);
}

#[test]
fn pack_rows_without_rows_is_all_zero() {
    let bits = pack_rows(&[], 16, 2, 2, 0);
    assert_eq!(bits, vec![0u8; 16]);
}

#[test]
fn pack_rows_with_tight_rows_copies_everything() {
    let mapped: Vec<u8> = (0u8..24).collect();
    let bits = pack_rows(&mapped, 8, 2, 3, 3);
    assert_eq!(bits, mapped);
}

#[test]
fn capture_error_reports() {
    assert_eq!(
        err_to_string(&WindowsCaptureError::WindowNotFoundErr),
        "Error: Failed to find window handle, is the translator window open?\n"
    );
    assert_eq!(
        err_to_string(&WindowsCaptureError::DimensionNotFoundErr(String::from("E_FAIL"))),
        "Error: Failed to get the dimensions of the window, cant capture region\n    Caused by: E_FAIL"
    );
    assert_eq!(
        WindowsCaptureError::ImageGenFailedErr(String::from("x")).message(),
        "Failed to create image from frame data"
    );
    assert_eq!(
        err_to_string(&WindowsCaptureError::ImageSaveFailedErr(String::from("denied"))),
        "Error: Failed to create image from path\n    Caused by: denied"
    );
}
