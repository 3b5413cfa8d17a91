use reveal_core::common::{CoveringType, RevealSettings, RevealState, UncoveringStrategy};
use reveal_core::image_loading::{
    advance_image, build_image_with_meta, choose_image_source, exists_is_dir_and_non_empty,
    filter_to_supported_images, image_type_for_extension, next_image_index, read_exif,
    supported_image_extension, ImageCandidate, ImageSourceChoice,
};
use reveal_core::reveal_plugin_android::{
    mime_type_supported, permission_granted, MimeRequestResponse, PermissionResponse,
    PERMISSION_DENIED, PERMISSION_GRANTED,
};

#[test]
fn default_settings() {
    let s = RevealSettings::default();
    assert!(s.image_source.is_none());
    assert_eq!(s.covering_type, CoveringType::Rectangles);
    assert_eq!(s.covering_object_count, 10);
    assert_eq!(s.uncovering_strategy, UncoveringStrategy::Manual);
    assert!(s.show_control_buttons);
    assert_eq!(CoveringType::default(), CoveringType::Triangles);
}

#[test]
fn folder_probe() {
    assert!(exists_is_dir_and_non_empty(true, true, Some(true)));
    assert!(!exists_is_dir_and_non_empty(true, true, Some(false)));
    assert!(!exists_is_dir_and_non_empty(true, true, None));
    assert!(!exists_is_dir_and_non_empty(true, false, Some(true)));
    assert!(!exists_is_dir_and_non_empty(false, true, Some(true)));
}

#[test]
fn image_source_fallback_order() {
    assert_eq!(choose_image_source(true, true, true), ImageSourceChoice::StoredFolder);
    assert_eq!(choose_image_source(false, true, true), ImageSourceChoice::PicturesReveal);
    assert_eq!(choose_image_source(false, false, true), ImageSourceChoice::PlatformFolder);
    assert_eq!(choose_image_source(false, false, false), ImageSourceChoice::AskUser);
}

#[test]
fn index_steps_wrap_in_both_directions() {
    assert_eq!(next_image_index(0, 1, 5), 1);
    assert_eq!(next_image_index(4, 1, 5), 0);
    assert_eq!(next_image_index(0, -1, 5), 4);
    assert_eq!(next_image_index(2, -7, 5), 0);
    assert_eq!(next_image_index(2, 13, 5), 0);
    assert_eq!(next_image_index(0, 0, 1), 0);
}

#[test]
fn advancing_steps_through_the_image_list() {
    let mut state = RevealState::default();
    assert_eq!(advance_image(&mut state, 1), None);
    assert_eq!(state.image_index, 0);

    state.images = vec!["a".to_string(), "b".to_string(), "c".to_string()];
    assert_eq!(advance_image(&mut state, 1), Some("b".to_string()));
    assert_eq!(advance_image(&mut state, 1), Some("c".to_string()));
    assert_eq!(advance_image(&mut state, 1), Some("a".to_string()));
    assert_eq!(advance_image(&mut state, -1), Some("c".to_string()));
    assert_eq!(advance_image(&mut state, -5), Some("a".to_string()));
    assert_eq!(state.image_index, 0);
}

#[test]
fn extension_support_ignores_case() {
    assert!(supported_image_extension(&String::from("jpg")));
    assert!(supported_image_extension(&String::from("JPG")));
    assert!(supported_image_extension(&String::from("WebP")));
    assert!(supported_image_extension(&String::from("svg")));
    assert!(!supported_image_extension(&String::from("txt")));
    assert!(!supported_image_extension(&String::from("jpg ")));
    assert!(!supported_image_extension(&String::from("")));
}

fn candidate(path: &str, is_file: bool, extension: Option<&str>) -> ImageCandidate {
    ImageCandidate {
        path: String::from(path),
        is_file,
        extension: extension.map(String::from),
    }
}

#[test]
fn filtering_keeps_only_supported_files() {
    let items = vec![
        candidate("a.jpg", true, Some("jpg")),
        candidate("b.txt", true, Some("txt")),
        candidate("folder.png", false, Some("png")),
        candidate("noext", true, None),
        candidate("c.PNG", true, Some("PNG")),
        candidate("d.webp", true, Some("webp")),
    ];
    let kept = filter_to_supported_images(&items);
    assert_eq!(kept, vec!["a.jpg", "c.PNG", "d.webp"]);
}

#[test]
fn mime_subtypes_for_extensions() {
    assert_eq!(image_type_for_extension(&Some(String::from("jpg"))), "jpeg");
    assert_eq!(image_type_for_extension(&Some(String::from("svg"))), "svg+xml");
    assert_eq!(image_type_for_extension(&Some(String::from("png"))), "png");
    assert_eq!(image_type_for_extension(&Some(String::from("webp"))), "webp");
    assert_eq!(image_type_for_extension(&None), "png");
}

#[test]
fn image_payload_is_base64_encoded() {
    let bytes: Vec<u8> = b"Man".to_vec();
    let image = build_image_with_meta(&bytes, &Some(String::from("png")));
    assert_eq!(image.base64, "TWFu");
    assert_eq!(image.image_type, "png");
    assert_eq!(image.date_taken, None);
}

#[test]
fn image_payload_pads_partial_groups() {
    let image = build_image_with_meta(&b"hi".to_vec(), &None);
    assert_eq!(image.base64, "aGk=");
    assert_eq!(image.image_type, "png");
}

/// A minimal TIFF container holding one metadata field: the original
/// date-time, as an ASCII value in its own sub-directory.
fn tiff_with_datetime(datetime: &str) -> Vec<u8> {
    assert_eq!(datetime.len(), 19);
    let mut b: Vec<u8> = Vec::new();
    // Little-endian TIFF header, first directory at offset 8.
    b.extend_from_slice(&[0x49, 0x49, 0x2A, 0x00, 8, 0, 0, 0]);
    // Directory 0: one entry, a pointer (type LONG) to the sub-directory at
    // offset 26.
    b.extend_from_slice(&[1, 0]);
    b.extend_from_slice(&[0x69, 0x87, 4, 0, 1, 0, 0, 0, 26, 0, 0, 0]);
    b.extend_from_slice(&[0, 0, 0, 0]);
    // Sub-directory: one entry, the date-time tag (type ASCII, 20 bytes)
    // stored at offset 44.
    b.extend_from_slice(&[1, 0]);
    b.extend_from_slice(&[0x03, 0x90, 2, 0, 20, 0, 0, 0, 44, 0, 0, 0]);
    b.extend_from_slice(&[0, 0, 0, 0]);
    b.extend_from_slice(datetime.as_bytes());
    b.push(0);
    b
}

#[test]
fn the_year_taken_is_read_from_metadata() {
    let bytes = tiff_with_datetime("2003:12:14 12:01:44");
    assert_eq!(read_exif(&bytes), Some(2003));
    let image = build_image_with_meta(&bytes, &Some(String::from("jpg")));
    assert_eq!(image.date_taken, Some(2003));
    assert_eq!(image.image_type, "jpeg");
}

#[test]
fn bytes_without_metadata_give_no_year() {
    assert_eq!(read_exif(&b"not an image".to_vec()), None);
}

#[test]
fn permission_answers() {
    assert!(permission_granted(&Ok(PermissionResponse { value: Some(PERMISSION_GRANTED) })));
    assert!(!permission_granted(&Ok(PermissionResponse { value: Some(PERMISSION_DENIED) })));
    assert!(!permission_granted(&Ok(PermissionResponse { value: None })));
    assert!(!permission_granted(&Err(String::from("plugin unavailable"))));
    assert!(PermissionResponse::default().value.is_none());
}

#[test]
fn mime_answers() {
    let ok = |s: &str| Ok(MimeRequestResponse { value: Some(String::from(s)) });
    assert!(mime_type_supported(&ok("jpeg")));
    assert!(mime_type_supported(&ok("webp")));
    assert!(!mime_type_supported(&ok("JPEG")));
    assert!(!mime_type_supported(&ok("pdf")));
    assert!(!mime_type_supported(&Ok(MimeRequestResponse { value: None })));
    assert!(!mime_type_supported(&Err(String::from("no plugin"))));
    assert!(MimeRequestResponse::default().value.is_none());
}
