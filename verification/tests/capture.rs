use arc::capture::{
    bgr_to_rgb, capture_item, capture_primary_monitor, capture_window, capture_window_region, check_size, combined, compare,
    crop, crop_region, read_frame, read_pixels, CaptureError, Comparison, FrameStep, Pixels,
};
use arc::cli::capture::compare_baseline;
use arc::proto::wire::{ImageFormat, RemoteError, RemoteErrorKind, Reply};
use arc::runner::capture::{decode, encode, fallback, find_window, screenshot, Settle};

fn pixels(width: u32, height: u32, at: fn(u32, u32) -> [u8; 4]) -> Pixels {
    let mut data = Vec::new();
    for y in 0..height {
        for x in 0..width {
            data.extend_from_slice(&at(x, y));
        }
    }
    Pixels { width, height, data }
}

fn gradient(width: u32, height: u32) -> Pixels {
    pixels(width, height, |x, y| [x as u8, y as u8, 128, 255])
}

#[test]
fn webp_encodes_and_decodes() {
    let image = gradient(64, 48);
    let webp = encode(&image, ImageFormat::Webp).expect("encode webp");
    assert!(!webp.is_empty());
    let decoded = decode(&webp).expect("decode webp");
    assert_eq!((decoded.width, decoded.height), (64, 48));
}

#[test]
fn webp_keeps_every_pixel() {
    let data = (0..64u32 * 48 * 4).map(|i| (i * i / 7 % 256) as u8).collect();
    let image = Pixels { width: 64, height: 48, data };
    let webp = encode(&image, ImageFormat::Webp).expect("encode webp");
    assert_eq!(decode(&webp).expect("decode webp"), image);
}

#[test]
fn png_keeps_every_pixel() {
    let image = gradient(9, 5);
    let png = encode(&image, ImageFormat::Png).expect("encode png");
    assert_eq!(&png[1..4], b"PNG");
    assert_eq!(decode(&png).expect("decode png"), image);
}

#[test]
fn rubbish_is_no_image() {
    assert!(decode(b"not an image").is_err());
}

#[test]
fn empty_image_cannot_be_encoded() {
    let empty = Pixels { width: 0, height: 0, data: vec![] };
    assert!(encode(&empty, ImageFormat::Png).is_err());
}

#[test]
fn screenshot_keeps_the_preferred_format() {
    let image = gradient(4, 4);
    for (preferred, format) in [
        (None, ImageFormat::Webp),
        (Some(ImageFormat::Webp), ImageFormat::Webp),
        (Some(ImageFormat::Png), ImageFormat::Png),
    ] {
        match screenshot(&image, preferred) {
            Ok(Reply::Image(shot)) => {
                assert_eq!((shot.format, shot.width, shot.height), (format, 4, 4));
                assert_eq!(decode(&shot.data).expect("decode"), image);
            }
            _ => panic!("no image"),
        }
    }
}

#[test]
fn blue_and_red_change_places() {
    assert_eq!(
        bgr_to_rgb(vec![1, 2, 3, 4, 5, 6, 7, 8]),
        vec![3, 2, 1, 255, 7, 6, 5, 255]
    );
}

#[test]
fn padded_rows_are_cut() {
    let data = [1, 2, 3, 4, 0, 0, 5, 6, 7, 8, 0, 0];
    let frame = read_frame(&data, 6, 1, 2);
    assert_eq!(frame, Pixels { width: 1, height: 2, data: vec![3, 2, 1, 255, 7, 6, 5, 255] });
}

#[test]
fn no_scanlines_is_a_failure() {
    assert!(matches!(read_pixels(0, vec![1, 2, 3, 4], 1, 1), Err(CaptureError::Failed(_))));
    let read = read_pixels(1, vec![1, 2, 3, 4], 1, 1).expect("pixels");
    assert_eq!(read.data, vec![3, 2, 1, 255]);
}

#[test]
fn crop_stays_inside() {
    let image = gradient(10, 10);
    let part = crop(&image, 8, 9, 5, 5);
    assert_eq!((part.width, part.height), (2, 1));
    assert_eq!(part.data, vec![8, 9, 128, 255, 9, 9, 128, 255]);
    assert_eq!(crop(&image, 20, 0, 5, 5).data.len(), 0);
    let corner = crop_region(&image, -3, -3, 2, 2);
    assert_eq!((corner.width, corner.height), (2, 2));
    assert_eq!(&corner.data[..4], &[0, 0, 128, 255]);
}

#[test]
fn window_region_is_cut_out_of_the_monitor() {
    let image = gradient(10, 10);
    let part = capture_window_region(&image, 2, 3, 5, 4).expect("part");
    assert_eq!((part.width, part.height), (3, 1));
    assert_eq!(&part.data[..4], &[2, 3, 128, 255]);
    assert_eq!(capture_window_region(&image, 5, 3, 5, 4).expect("one column").width, 1);
    assert_eq!(
        capture_window_region(&image, 10, 3, 15, 4),
        Err(CaptureError::Failed("window is off-screen".to_string()))
    );
}

#[test]
fn window_must_have_a_size() {
    assert_eq!(check_size(3, 4), Ok((3, 4)));
    assert!(check_size(0, 4).is_err());
    assert!(check_size(4, -1).is_err());
}

#[test]
fn capture_falls_back_in_order() {
    let failed = || Err(CaptureError::Failed("region".to_string()));
    assert_eq!(capture_window(Ok(1), failed, failed), Ok(1));
    let missing = Err(CaptureError::Unsupported("first".to_string()));
    assert_eq!(capture_window(missing.clone(), || Ok(2), failed), Ok(2));
    let both = capture_window::<i32, _, _>(missing, failed, failed);
    let text = "WGC: first; GDI fallback: region".to_string();
    assert_eq!(both, Err(CaptureError::Unsupported(text)));
    let one = CaptureError::Failed("a".to_string());
    let two = CaptureError::Failed("b".to_string());
    let text = combined(one, two).to_string();
    assert!(text.contains('a') && text.contains('b'));
}

#[test]
fn primary_monitor_has_one_fallback() {
    let fault = |m: &str| CaptureError::Failed(m.to_string());
    assert_eq!(capture_primary_monitor(Ok(1), || Err(fault("b"))), Ok(1));
    assert_eq!(capture_primary_monitor(Err(fault("a")), || Ok(2)), Ok(2));
    let missing = Err(CaptureError::Unsupported("a".to_string()));
    assert_eq!(
        capture_primary_monitor::<i32, _>(missing, || Err(fault("b"))),
        Err(CaptureError::Unsupported("WGC: a; GDI fallback: b".to_string()))
    );
}

#[test]
fn combined_failure_keeps_the_first_category() {
    let text = || "WGC: a; GDI fallback: b".to_string();
    let last = || CaptureError::Failed("b".to_string());
    assert_eq!(
        combined(CaptureError::Unsupported("a".to_string()), last()),
        CaptureError::Unsupported(text())
    );
    assert_eq!(
        combined(CaptureError::NotFound("a".to_string()), last()),
        CaptureError::NotFound(text())
    );
    assert_eq!(
        combined(
            CaptureError::Failed("a".to_string()),
            CaptureError::NotFound("b".to_string())
        ),
        CaptureError::Failed(text())
    );
}

#[test]
fn first_frame_is_awaited_then_taken() {
    assert!(matches!(capture_item(None, false), FrameStep::Wait(_)));
    assert!(matches!(capture_item(None, true), FrameStep::Fail(_)));
    assert!(matches!(capture_item(Some(0), false), FrameStep::Wait(_)));
    assert_eq!(capture_item(Some(0), true), FrameStep::Take);
    assert_eq!(capture_item(Some(300), false), FrameStep::Take);
}

#[test]
fn comparison_counts_and_paints() {
    let base = gradient(3, 2);
    let mut new = gradient(3, 2);
    new.data[0] = 16;
    assert_eq!(
        compare(&new, &base, false),
        Comparison::Compared { changed: 0, total: 6, overlay: None }
    );
    new.data[0] = 17;
    assert_eq!(
        compare(&new, &base, false),
        Comparison::Compared { changed: 1, total: 6, overlay: None }
    );
    assert_eq!(
        compare(&base, &new, false),
        Comparison::Compared { changed: 1, total: 6, overlay: None }
    );
    match compare(&new, &base, true) {
        Comparison::Compared { overlay: Some(painted), .. } => {
            assert_eq!(&painted[..4], &[255, 0, 255, 255]);
            assert_eq!(painted.len(), new.data.len());
        }
        _ => panic!("nothing painted"),
    }
    assert_eq!(compare(&gradient(2, 3), &base, true), Comparison::Resized);
}

#[test]
fn captured_file_is_compared_with_the_baseline() {
    let base = gradient(3, 2);
    let file = encode(&gradient(3, 2), ImageFormat::Png).expect("encode");
    assert_eq!(
        compare_baseline(&file, &base, false),
        Ok(Comparison::Compared { changed: 0, total: 6, overlay: None })
    );
    assert!(compare_baseline(b"rubbish", &base, false).is_err());
}

fn fault(message: &str) -> RemoteError {
    RemoteError { kind: RemoteErrorKind::Os, message: message.to_string() }
}

#[test]
fn second_backend_is_asked_only_once_the_first_failed() {
    assert_eq!(fallback(fault("a"), Some(Ok(3))), Ok(3));
    assert_eq!(fallback::<i32>(fault("a"), None), Err(fault("a")));
    let both = fallback::<i32>(fault("a"), Some(Err(fault("b"))));
    assert!(both.is_err());
}

#[test]
fn window_is_found_by_its_handle() {
    assert_eq!(find_window(&[4, 7, 9], 7), Ok(1));
    assert_eq!(find_window(&[4], 8).map_err(|e| e.kind), Err(RemoteErrorKind::NotFound));
    assert!(find_window(&[4], 0x1_0000_0004).is_err());
}

#[test]
fn settling_waits_for_two_equal_frames() {
    let mut settle = Settle::new(gradient(2, 2), false);
    assert!(settle.accept(gradient(2, 2), false));
    assert_eq!(settle.into_frame(), gradient(2, 2));
    let mut settle = Settle::new(gradient(2, 2), true);
    assert!(!settle.accept(gradient(2, 2), false));
    assert!(!settle.accept(gradient(3, 3), false));
    assert!(settle.accept(gradient(3, 3), false));
    assert_eq!(settle.into_frame(), gradient(3, 3));
    let mut settle = Settle::new(gradient(2, 2), true);
    assert!(settle.accept(gradient(3, 3), true));
    assert_eq!(settle.into_frame(), gradient(3, 3));
}
