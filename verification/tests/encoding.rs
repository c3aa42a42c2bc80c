use std::collections::HashMap;

use media_meta::json::{encode_gps, encode_resolution, encode_subject_area, encode_thumbnails};
use media_meta::types::{SubjectArea, Thumbnail};

#[test]
fn resolution_absent_is_one_element_mapping() {
    let r = encode_resolution(&None, &None);
    assert_eq!(r, "[{}]");
}

#[test]
fn resolution_both_axes() {
    let r = encode_resolution(
        &Some("300 pixels per inch".to_string()),
        &Some("300 pixels per inch".to_string()),
    );
    assert_eq!(r, "[{\"x\":\"300 pixels per inch\",\"y\":\"300 pixels per inch\"}]");
}

#[test]
fn resolution_single_axis() {
    let r = encode_resolution(&None, &Some("72 pixels per inch".to_string()));
    assert_eq!(r, "[{\"y\":\"72 pixels per inch\"}]");
}

#[test]
fn resolution_roundtrip_with_escapes() {
    let odd = "we\"ird\\va\nlue".to_string();
    let r = encode_resolution(&Some(odd.clone()), &None);
    let back: Vec<HashMap<String, String>> = serde_json::from_str(&r).unwrap();
    assert_eq!(back.len(), 1);
    assert_eq!(back[0].len(), 1);
    assert_eq!(back[0]["x"], odd);
}

#[test]
fn gps_absent_is_empty_array() {
    assert_eq!(encode_gps(&None, &None), "[]");
}

#[test]
fn gps_one_coordinate_is_one_element_array() {
    let r = encode_gps(&Some("51 deg 30 min".to_string()), &None);
    assert_eq!(r, "[{\"latitude\":\"51 deg 30 min\"}]");
}

#[test]
fn gps_roundtrip() {
    let r = encode_gps(&Some("51 deg".to_string()), &Some("0 deg".to_string()));
    let back: Vec<HashMap<String, String>> = serde_json::from_str(&r).unwrap();
    assert_eq!(back.len(), 1);
    assert_eq!(back[0]["latitude"], "51 deg");
    assert_eq!(back[0]["longitude"], "0 deg");
}

#[test]
fn subject_area_absent_is_empty_mapping() {
    assert_eq!(encode_subject_area(&SubjectArea::Absent), "{}");
}

#[test]
fn subject_area_point() {
    let r = encode_subject_area(&SubjectArea::Point { x: 7, y: 11 });
    assert_eq!(r, "{\"x\":7,\"y\":11}");
}

#[test]
fn subject_area_rectangle_has_no_diameter() {
    let r = encode_subject_area(&SubjectArea::Rect { x: 1, y: 2, width: 3, height: 4 });
    assert_eq!(r, "{\"x\":1,\"y\":2,\"width\":3,\"height\":4}");
    assert!(!r.contains("diameter"));
}

#[test]
fn subject_area_circle_has_no_width_or_height() {
    let r = encode_subject_area(&SubjectArea::Circle { x: 5, y: 6, diameter: 40 });
    assert_eq!(r, "{\"x\":5,\"y\":6,\"diameter\":40}");
    assert!(!r.contains("width"));
    assert!(!r.contains("height"));
}

#[test]
fn subject_area_roundtrip() {
    let r = encode_subject_area(&SubjectArea::Rect { x: 0, y: 4294967295, width: 30, height: 40 });
    let back: HashMap<String, u32> = serde_json::from_str(&r).unwrap();
    assert_eq!(back["x"], 0);
    assert_eq!(back["y"], 4294967295);
    assert_eq!(back["width"], 30);
    assert_eq!(back["height"], 40);
    assert_eq!(back.len(), 4);
}

#[test]
fn thumbnails_absent_is_empty_array() {
    let none: Vec<Thumbnail> = Vec::new();
    assert_eq!(encode_thumbnails(&none), "[]");
}

#[test]
fn thumbnails_two_entries_roundtrip() {
    let ts = vec![
        Thumbnail {
            format: "JPEG".to_string(),
            width: "160".to_string(),
            height: "120".to_string(),
            image: "base64\"data\\x".to_string(),
        },
        Thumbnail {
            format: "PNG".to_string(),
            width: "32".to_string(),
            height: "32".to_string(),
            image: "aGVsbG8=".to_string(),
        },
    ];
    let r = encode_thumbnails(&ts);
    assert!(r.starts_with("[{\"format\":\"JPEG\","));
    let back: Vec<HashMap<String, String>> = serde_json::from_str(&r).unwrap();
    assert_eq!(back.len(), 2);
    assert_eq!(back[0]["image"], "base64\"data\\x");
    assert_eq!(back[1]["format"], "PNG");
    assert_eq!(back[1]["width"], "32");
    assert_eq!(back[1]["height"], "32");
    assert_eq!(back[1]["image"], "aGVsbG8=");
}

#[test]
fn record_getters_and_setters() {
    let tiff = tiny_tiff();
    let mut m = media_meta::Metadata::get_metadata(tiff, "image/tiff".to_string()).unwrap();
    assert_eq!(m.title(), "");
    m.set_title("mine".to_string());
    assert_eq!(m.title(), "mine");
    m.set_gps("[]".to_string());
    assert_eq!(m.gps(), "[]");
    m.set_original_document_id("id1".to_string());
    assert_eq!(m.original_document_id(), "id1");
}

// A minimal little-endian TIFF with an empty tag table.
fn tiny_tiff() -> Vec<u8> {
    let mut b: Vec<u8> = vec![0x49, 0x49, 0x2a, 0x00, 0x08, 0x00, 0x00, 0x00];
    b.extend_from_slice(&[0x00, 0x00]); // zero entries
    b.extend_from_slice(&[0x00, 0x00, 0x00, 0x00]); // no next table
    b
}
