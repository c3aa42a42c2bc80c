use media_meta::types::{ExifField, Extraction, FieldPayload, SubjectArea, TagContext};
use media_meta::exif_read::apply_exif_fields;
use media_meta::{render, run_xmp, Metadata};

// ---------------------------------------------------------------------------
// Byte-level builders for real containers
// ---------------------------------------------------------------------------

fn le16(b: &mut Vec<u8>, v: u16) {
    b.extend_from_slice(&v.to_le_bytes());
}

fn le32(b: &mut Vec<u8>, v: u32) {
    b.extend_from_slice(&v.to_le_bytes());
}

/// A little-endian TIFF whose only table holds XResolution and YResolution,
/// both 300/1, with no ResolutionUnit (so the default unit applies).
fn tiff_with_resolution() -> Vec<u8> {
    let mut b: Vec<u8> = vec![0x49, 0x49, 0x2a, 0x00];
    le32(&mut b, 8); // table offset
    le16(&mut b, 2); // two entries
    // XResolution, RATIONAL, one value, stored at offset 38
    le16(&mut b, 0x11a);
    le16(&mut b, 5);
    le32(&mut b, 1);
    le32(&mut b, 38);
    // YResolution, RATIONAL, one value, stored at offset 46
    le16(&mut b, 0x11b);
    le16(&mut b, 5);
    le32(&mut b, 1);
    le32(&mut b, 46);
    le32(&mut b, 0); // no next table
    le32(&mut b, 300);
    le32(&mut b, 1);
    le32(&mut b, 300);
    le32(&mut b, 1);
    b
}

/// A little-endian TIFF whose only entry is the given tag with a BYTE or
/// UNDEFINED payload.
fn tiff_with_blob(tag: u16, type_code: u16, payload: &[u8]) -> Vec<u8> {
    let mut b: Vec<u8> = vec![0x49, 0x49, 0x2a, 0x00];
    le32(&mut b, 8);
    le16(&mut b, 1);
    le16(&mut b, tag);
    le16(&mut b, type_code);
    le32(&mut b, payload.len() as u32);
    le32(&mut b, 26); // 8 header + 2 count + 12 entry + 4 next
    le32(&mut b, 0);
    b.extend_from_slice(payload);
    b
}

/// A minimal PDF whose Info dictionary carries a Title and an Author and
/// whose catalog names a metadata stream that does not exist.
fn pdf_with_info() -> Vec<u8> {
    let objects = [
        "<< /Type /Catalog /Pages 2 0 R /Metadata 9 0 R >>",
        "<< /Type /Pages /Kids [3 0 R] /Count 1 >>",
        "<< /Type /Page /Parent 2 0 R /MediaBox [0 0 612 792] >>",
        "<< /Title (Report) /Author (Jane) >>",
    ];
    let mut body = String::from("%PDF-1.4\n");
    let mut offsets: Vec<usize> = Vec::new();
    for (i, obj) in objects.iter().enumerate() {
        offsets.push(body.len());
        body.push_str(&format!("{} 0 obj\n{}\nendobj\n", i + 1, obj));
    }
    let xref_at = body.len();
    body.push_str(&format!("xref\n0 {}\n", objects.len() + 1));
    body.push_str("0000000000 65535 f \n");
    for off in &offsets {
        body.push_str(&format!("{:010} 00000 n \n", off));
    }
    body.push_str(&format!(
        "trailer\n<< /Size {} /Root 1 0 R /Info 4 0 R >>\nstartxref\n{}\n%%EOF\n",
        objects.len() + 1,
        xref_at
    ));
    body.into_bytes()
}

const XMP_RICH: &str = "<x:xmpmeta xmlns:x=\"adobe:ns:meta/\">\
<rdf:RDF xmlns:rdf=\"http://www.w3.org/1999/02/22-rdf-syntax-ns#\">\
<rdf:Description xmlns:dc=\"http://purl.org/dc/elements/1.1/\" \
xmlns:xap=\"http://ns.adobe.com/xap/1.0/\" \
xmlns:xmpGImg=\"http://ns.adobe.com/xap/1.0/g/img/\" \
xmlns:xmpMM=\"http://ns.adobe.com/xap/1.0/mm/\" \
xmlns:stRef=\"http://ns.adobe.com/xap/1.0/sType/ResourceRef#\">\
<dc:title><rdf:Alt><rdf:li>Sunset</rdf:li></rdf:Alt></dc:title>\
<dc:rights><rdf:Alt><rdf:li>CC-BY</rdf:li></rdf:Alt></dc:rights>\
<dc:creator><rdf:Seq><rdf:li>Ansel</rdf:li></rdf:Seq></dc:creator>\
<xap:Thumbnails><rdf:Alt><rdf:li>\
<xmpGImg:format>JPEG</xmpGImg:format>\
<xmpGImg:width>160</xmpGImg:width>\
<xmpGImg:height>120</xmpGImg:height>\
<xmpGImg:image>QUJD</xmpGImg:image>\
</rdf:li></rdf:Alt></xap:Thumbnails>\
<xmpMM:DerivedFrom>\
<stRef:originalDocumentID>doc-42</stRef:originalDocumentID>\
</xmpMM:DerivedFrom>\
</rdf:Description></rdf:RDF></x:xmpmeta>";

// ---------------------------------------------------------------------------
// Scenarios
// ---------------------------------------------------------------------------

#[test]
fn exif_resolution_without_xmp() {
    let m = Metadata::get_metadata(tiff_with_resolution(), "image/tiff".to_string()).unwrap();
    assert_eq!(
        m.resolution(),
        "[{\"x\":\"300 pixels per inch\",\"y\":\"300 pixels per inch\"}]"
    );
    assert_eq!(m.xmp(), "");
    assert_eq!(m.gps(), "[]");
    assert_eq!(m.subject_area(), "{}");
    assert_eq!(m.thumbnails(), "[]");
}

#[test]
fn exif_xmp_tag_sets_title_and_more() {
    let bytes = tiff_with_blob(700, 1, XMP_RICH.as_bytes());
    let m = Metadata::get_metadata(bytes, "image/jpeg".to_string()).unwrap();
    assert_eq!(m.title(), "Sunset");
    assert_eq!(m.copyright(), "CC-BY");
    assert_eq!(m.author(), "Ansel");
    assert_eq!(m.original_document_id(), "doc-42");
    assert_eq!(
        m.thumbnails(),
        "[{\"format\":\"JPEG\",\"width\":\"160\",\"height\":\"120\",\"image\":\"QUJD\"}]"
    );
    assert_eq!(m.xmp(), XMP_RICH);
}

#[test]
fn exif_iptc_tag_is_decoded_text() {
    let bytes = tiff_with_blob(33723, 7, b"iptc-block");
    let m = Metadata::get_metadata(bytes, "image/tiff".to_string()).unwrap();
    assert_eq!(m.iptc(), "iptc-block");
    assert_eq!(m.xmp(), "");
}

#[test]
fn pdf_title_retained_when_metadata_stream_missing() {
    let m = Metadata::get_metadata(pdf_with_info(), "application/pdf".to_string()).unwrap();
    assert_eq!(m.title(), "Report");
    assert_eq!(m.author(), "Jane");
    assert_eq!(m.description(), "");
    assert_eq!(m.xmp(), "");
    assert_eq!(m.resolution(), "[{}]");
}

#[test]
fn mime_type_selects_exactly_one_path() {
    // TIFF bytes are not a PDF: the PDF path must run, and fail.
    assert!(Metadata::get_metadata(tiff_with_resolution(), "application/pdf".to_string()).is_err());
    // The same bytes on the EXIF path succeed.
    assert!(Metadata::get_metadata(tiff_with_resolution(), "image/tiff".to_string()).is_ok());
    // PDF bytes are not an EXIF container: the EXIF path must run, and fail.
    assert!(Metadata::get_metadata(pdf_with_info(), "text/plain".to_string()).is_err());
    // PostScript routes to the PDF path too.
    assert!(Metadata::get_metadata(pdf_with_info(), "application/postscript".to_string()).is_ok());
}

#[test]
fn unparsable_container_is_an_error() {
    let garbage = vec![1u8, 2, 3, 4, 5];
    assert!(Metadata::get_metadata(garbage.clone(), "image/tiff".to_string()).is_err());
    assert!(Metadata::get_metadata(garbage, "application/pdf".to_string()).is_err());
}

// ---------------------------------------------------------------------------
// The tag-of-interest table on constructed fields
// ---------------------------------------------------------------------------

fn field(ctx: TagContext, number: u16, display: &str, uints: Vec<u32>) -> ExifField {
    ExifField {
        ctx,
        number,
        display: display.to_string(),
        payload: FieldPayload::Other,
        uints,
    }
}

#[test]
fn subject_area_four_components_is_a_rectangle() {
    let fields = vec![field(TagContext::Exif, 0x9214, "", vec![10, 20, 30, 40])];
    let m = render(apply_exif_fields(&fields));
    assert_eq!(m.subject_area(), "{\"x\":10,\"y\":20,\"width\":30,\"height\":40}");
    assert!(!m.subject_area().contains("diameter"));
}

#[test]
fn subject_area_three_components_is_a_circle() {
    let fields = vec![field(TagContext::Exif, 0xa214, "", vec![10, 20, 30])];
    let m = render(apply_exif_fields(&fields));
    assert_eq!(m.subject_area(), "{\"x\":10,\"y\":20,\"diameter\":30}");
}

#[test]
fn subject_area_two_components_is_a_point() {
    let fields = vec![field(TagContext::Exif, 0x9214, "", vec![10, 20])];
    let m = render(apply_exif_fields(&fields));
    assert_eq!(m.subject_area(), "{\"x\":10,\"y\":20}");
}

#[test]
fn subject_area_single_component_is_a_miss() {
    let fields = vec![field(TagContext::Exif, 0x9214, "", vec![10])];
    let m = render(apply_exif_fields(&fields));
    assert_eq!(m.subject_area(), "{}");
}

#[test]
fn last_matching_dimension_tag_wins() {
    let fields = vec![
        field(TagContext::Tiff, 0x100, "4032 pixels", vec![4032]),
        field(TagContext::Exif, 0xa002, "2016 pixels", vec![2016]),
    ];
    let m = render(apply_exif_fields(&fields));
    assert_eq!(m.width(), "2016 pixels");
}

#[test]
fn gps_tags_fill_both_coordinates() {
    let fields = vec![
        field(TagContext::Gps, 2, "51 deg 30 min", vec![]),
        field(TagContext::Gps, 4, "0 deg 7 min", vec![]),
    ];
    let m = render(apply_exif_fields(&fields));
    assert_eq!(m.gps(), "[{\"latitude\":\"51 deg 30 min\",\"longitude\":\"0 deg 7 min\"}]");
}

#[test]
fn gps_number_in_wrong_table_is_ignored() {
    let fields = vec![field(TagContext::Tiff, 2, "not gps", vec![])];
    let m = render(apply_exif_fields(&fields));
    assert_eq!(m.gps(), "[]");
}

#[test]
fn scalar_tags_take_display_values() {
    let fields = vec![
        field(TagContext::Tiff, 0x10f, "ACME", vec![]),
        field(TagContext::Tiff, 0x110, "Snapper 9", vec![]),
        field(TagContext::Exif, 0x9209, "fired", vec![]),
        field(TagContext::Tiff, 0x10e, "a view", vec![]),
        field(TagContext::Tiff, 0x8298, "(c) me", vec![]),
    ];
    let m = render(apply_exif_fields(&fields));
    assert_eq!(m.make(), "ACME");
    assert_eq!(m.model(), "Snapper 9");
    assert_eq!(m.flash_found(), "fired");
    assert_eq!(m.description(), "a view");
    assert_eq!(m.copyright(), "(c) me");
}

// ---------------------------------------------------------------------------
// Merge order: the XMP walker overwrites earlier extractor values
// ---------------------------------------------------------------------------

#[test]
fn xmp_title_overrides_earlier_title() {
    let mut ex = Extraction::empty();
    ex.title = "Old title".to_string();
    ex.copyright = "old (c)".to_string();
    ex.xmp = XMP_RICH.to_string();
    let merged = run_xmp(ex);
    assert_eq!(merged.title, "Sunset");
    assert_eq!(merged.copyright, "CC-BY");
}

#[test]
fn malformed_xmp_payload_keeps_earlier_fields() {
    let mut ex = Extraction::empty();
    ex.title = "Kept".to_string();
    ex.xmp = "<not well-formed".to_string();
    let merged = run_xmp(ex);
    assert_eq!(merged.title, "Kept");
}

#[test]
fn unstructured_payload_title_lookup() {
    let payload = "<x:xmpmeta xmlns:x=\"adobe:ns:meta/\">\
<x:wrap xmlns:dc=\"http://purl.org/dc/elements/1.1/\" \
xmlns:r=\"http://www.w3.org/1999/02/22-rdf-syntax-ns#\">\
<dc:title><r:Alt><r:li>Deep name</r:li></r:Alt></dc:title>\
</x:wrap></x:xmpmeta>";
    let mut ex = Extraction::empty();
    ex.xmp = payload.to_string();
    let merged = run_xmp(ex);
    assert_eq!(merged.title, "Deep name");
}

/// A little-endian TIFF whose primary table points to an Exif sub-table
/// holding a four-component SubjectArea of SHORT values.
fn tiff_with_subject_area() -> Vec<u8> {
    let mut b: Vec<u8> = vec![0x49, 0x49, 0x2a, 0x00];
    le32(&mut b, 8);
    le16(&mut b, 1);
    // Exif sub-table pointer, LONG, at offset 26
    le16(&mut b, 0x8769);
    le16(&mut b, 4);
    le32(&mut b, 1);
    le32(&mut b, 26);
    le32(&mut b, 0);
    // the sub-table: one SubjectArea entry of four SHORTs, stored at 44
    le16(&mut b, 1);
    le16(&mut b, 0x9214);
    le16(&mut b, 3);
    le32(&mut b, 4);
    le32(&mut b, 44);
    le32(&mut b, 0);
    le16(&mut b, 10);
    le16(&mut b, 20);
    le16(&mut b, 30);
    le16(&mut b, 40);
    b
}

#[test]
fn exif_subject_area_from_container() {
    let m = Metadata::get_metadata(tiff_with_subject_area(), "image/tiff".to_string()).unwrap();
    assert_eq!(m.subject_area(), "{\"x\":10,\"y\":20,\"width\":30,\"height\":40}");
}

#[test]
fn exif_invalid_utf8_xmp_payload_is_a_miss() {
    let bytes = tiff_with_blob(700, 1, &[0xff, 0xfe, 0xff, 0xfe, 0xff, 0xfe]);
    let m = Metadata::get_metadata(bytes, "image/tiff".to_string()).unwrap();
    assert_eq!(m.xmp(), "");
    assert_eq!(m.title(), "");
}

/// A minimal PDF whose Info Title is set and whose metadata stream holds an
/// XMP packet with a different Dublin-Core title.
fn pdf_with_metadata_stream(xmp: &str) -> Vec<u8> {
    let stream_obj = format!("<< /Length {} >>\nstream\n{}\nendstream", xmp.len(), xmp);
    let objects = [
        "<< /Type /Catalog /Pages 2 0 R /Metadata 5 0 R >>".to_string(),
        "<< /Type /Pages /Kids [3 0 R] /Count 1 >>".to_string(),
        "<< /Type /Page /Parent 2 0 R /MediaBox [0 0 612 792] >>".to_string(),
        "<< /Title (Report) >>".to_string(),
        stream_obj,
    ];
    let mut body = String::from("%PDF-1.4\n");
    let mut offsets: Vec<usize> = Vec::new();
    for (i, obj) in objects.iter().enumerate() {
        offsets.push(body.len());
        body.push_str(&format!("{} 0 obj\n{}\nendobj\n", i + 1, obj));
    }
    let xref_at = body.len();
    body.push_str(&format!("xref\n0 {}\n", objects.len() + 1));
    body.push_str("0000000000 65535 f \n");
    for off in &offsets {
        body.push_str(&format!("{:010} 00000 n \n", off));
    }
    body.push_str(&format!(
        "trailer\n<< /Size {} /Root 1 0 R /Info 4 0 R >>\nstartxref\n{}\n%%EOF\n",
        objects.len() + 1,
        xref_at
    ));
    body.into_bytes()
}

#[test]
fn pdf_xmp_title_overrides_info_title() {
    let xmp = "<x:xmpmeta xmlns:x=\"adobe:ns:meta/\">\
<rdf:RDF xmlns:rdf=\"http://www.w3.org/1999/02/22-rdf-syntax-ns#\">\
<rdf:Description xmlns:dc=\"http://purl.org/dc/elements/1.1/\">\
<dc:title><rdf:Alt><rdf:li>Override</rdf:li></rdf:Alt></dc:title>\
</rdf:Description></rdf:RDF></x:xmpmeta>";
    let m = Metadata::get_metadata(pdf_with_metadata_stream(xmp), "application/pdf".to_string())
        .unwrap();
    assert_eq!(m.title(), "Override");
    assert_eq!(m.xmp(), xmp);
}

#[test]
fn incomplete_thumbnail_descriptor_is_skipped() {
    let payload = "<x:xmpmeta xmlns:x=\"adobe:ns:meta/\">\
<rdf:RDF xmlns:rdf=\"http://www.w3.org/1999/02/22-rdf-syntax-ns#\">\
<rdf:Description xmlns:xap=\"http://ns.adobe.com/xap/1.0/\" \
xmlns:g=\"http://ns.adobe.com/xap/1.0/g/img/\">\
<xap:Thumbnails><rdf:Alt>\
<rdf:li><g:format>JPEG</g:format><g:width>1</g:width></rdf:li>\
<rdf:li><g:format>PNG</g:format><g:width>2</g:width>\
<g:height>3</g:height><g:image>Zg==</g:image></rdf:li>\
</rdf:Alt></xap:Thumbnails>\
</rdf:Description></rdf:RDF></x:xmpmeta>";
    let mut ex = Extraction::empty();
    ex.xmp = payload.to_string();
    let m = render(run_xmp(ex));
    assert_eq!(
        m.thumbnails(),
        "[{\"format\":\"PNG\",\"width\":\"2\",\"height\":\"3\",\"image\":\"Zg==\"}]"
    );
}

#[test]
fn later_rdf_child_title_wins() {
    let payload = "<x:xmpmeta xmlns:x=\"adobe:ns:meta/\">\
<rdf:RDF xmlns:rdf=\"http://www.w3.org/1999/02/22-rdf-syntax-ns#\">\
<rdf:Description xmlns:dc=\"http://purl.org/dc/elements/1.1/\">\
<dc:title><rdf:Alt><rdf:li>First</rdf:li></rdf:Alt></dc:title>\
</rdf:Description>\
<rdf:Description xmlns:dc=\"http://purl.org/dc/elements/1.1/\">\
<dc:title><rdf:Alt><rdf:li>Second</rdf:li></rdf:Alt></dc:title>\
</rdf:Description></rdf:RDF></x:xmpmeta>";
    let mut ex = Extraction::empty();
    ex.xmp = payload.to_string();
    let merged = run_xmp(ex);
    assert_eq!(merged.title, "Second");
}
