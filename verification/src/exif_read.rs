use vstd::prelude::*;

use crate::types::{
    ExifField, ExifFieldV, Extraction, ExtractionV, FieldPayload, FieldPayloadV, SubjectArea,
    TagContext, fields_view, spec_empty_extraction,
};
use crate::ContainerParseError;

verus! {

// Tag numbers of interest, as the tag tables define them.
pub const TAG_XMP: u16 = 700;

pub const TAG_IPTC: u16 = 33723;

pub const TAG_IMAGE_WIDTH: u16 = 0x100;

pub const TAG_IMAGE_LENGTH: u16 = 0x101;

pub const TAG_IMAGE_DESCRIPTION: u16 = 0x10e;

pub const TAG_MAKE: u16 = 0x10f;

pub const TAG_MODEL: u16 = 0x110;

pub const TAG_X_RESOLUTION: u16 = 0x11a;

pub const TAG_Y_RESOLUTION: u16 = 0x11b;

pub const TAG_COPYRIGHT: u16 = 0x8298;

pub const TAG_FLASH: u16 = 0x9209;

pub const TAG_SUBJECT_AREA: u16 = 0x9214;

pub const TAG_PIXEL_X_DIMENSION: u16 = 0xa002;

pub const TAG_PIXEL_Y_DIMENSION: u16 = 0xa003;

pub const TAG_SUBJECT_LOCATION: u16 = 0xa214;

pub const TAG_GPS_LATITUDE: u16 = 2;

pub const TAG_GPS_LONGITUDE: u16 = 4;

#[verifier::external_type_specification]
#[verifier::external_body]
pub struct ExExif(exif::Exif);

/// Whether the byte buffer parses as an EXIF-bearing container.
pub uninterp spec fn exif_parses(b: Seq<u8>) -> bool;

/// The decoded fields of a parsed container, in enumeration order: tag
/// context and number, display text with unit, raw payload, and unsigned
/// integer components.
pub uninterp spec fn exif_fields_of(e: exif::Exif) -> Seq<ExifFieldV>;

/// The decoded fields as a function of the input bytes alone.
pub uninterp spec fn exif_fields_spec(b: Seq<u8>) -> Seq<ExifFieldV>;

/// Relies on `exif::Reader::read_from_container`: it decodes the same
/// fields for the same bytes, and returns `Err` exactly when the container
/// cannot be read at all.
#[verifier::external_body]
pub(crate) fn exif_load(bytes: Vec<u8>) -> (r: Result<exif::Exif, ContainerParseError>)
    ensures
        r is Ok <==> exif_parses(bytes@),
        r is Ok ==> exif_fields_of(r->Ok_0) == exif_fields_spec(bytes@),
{
    exif::Reader::new()
        .read_from_container(&mut std::io::Cursor::new(bytes))
        .map_err(|_| ContainerParseError)
}

/// Relies on `Exif::fields`: the iterator enumerates every decoded field.
#[verifier::external_body]
pub(crate) fn exif_field_count(e: &exif::Exif) -> (r: usize)
    ensures
        r == exif_fields_of(*e).len(),
{
    e.fields().len()
}

/// Relies on `Field::tag`: its `Context` and its number identify the tag.
#[verifier::external_body]
pub(crate) fn exif_field_tag(e: &exif::Exif, i: usize) -> (r: (TagContext, u16))
    requires
        i < exif_fields_of(*e).len(),
    ensures
        r.0 == exif_fields_of(*e)[i as int].ctx,
        r.1 == exif_fields_of(*e)[i as int].number,
{
    let f = e.fields().nth(i).unwrap();
    let ctx = match f.tag.context() {
        exif::Context::Tiff => TagContext::Tiff,
        exif::Context::Exif => TagContext::Exif,
        exif::Context::Gps => TagContext::Gps,
        exif::Context::Interop => TagContext::Interop,
        _ => TagContext::Other,
    };
    (ctx, f.tag.number())
}

/// Relies on `Field::display_value().with_unit(&Exif)`: the rendered text
/// of the field's value with its unit, which depends only on the parsed
/// container.
#[verifier::external_body]
pub(crate) fn exif_field_display(e: &exif::Exif, i: usize) -> (r: String)
    requires
        i < exif_fields_of(*e).len(),
    ensures
        r@ == exif_fields_of(*e)[i as int].display,
{
    let f = e.fields().nth(i).unwrap();
    f.display_value().with_unit(e).to_string()
}

/// Relies on `exif::Value`: byte-array and "undefined" payloads are handed
/// out as they were decoded; every other value kind carries no payload the
/// extractor reads.
#[verifier::external_body]
pub(crate) fn exif_field_payload(e: &exif::Exif, i: usize) -> (r: FieldPayload)
    requires
        i < exif_fields_of(*e).len(),
    ensures
        r@ == exif_fields_of(*e)[i as int].payload,
{
    let f = e.fields().nth(i).unwrap();
    match &f.value {
        exif::Value::Byte(v) => FieldPayload::Bytes(v.clone()),
        exif::Value::Undefined(v, _) => FieldPayload::Undefined(v.clone()),
        _ => FieldPayload::Other,
    }
}

/// Relies on `Value::get_uint`: the unsigned integer at the given position,
/// present exactly for positions below the count of integer components.
#[verifier::external_body]
pub(crate) fn exif_field_uint(e: &exif::Exif, i: usize, j: usize) -> (r: Option<u32>)
    requires
        i < exif_fields_of(*e).len(),
    ensures
        ({
            let u = exif_fields_of(*e)[i as int].uints;
            r == if (j as int) < u.len() {
                Some(u[j as int])
            } else {
                None::<u32>
            }
        }),
{
    let f = e.fields().nth(i).unwrap();
    f.value.get_uint(j)
}

/// Pull every decoded field out of the parsed container as plain values.
pub(crate) fn collect_exif_fields(e: &exif::Exif) -> (v: Vec<ExifField>)
    ensures
        fields_view(v@) == exif_fields_of(*e),
{
    let n = exif_field_count(e);
    let mut v: Vec<ExifField> = Vec::new();
    let mut i: usize = 0;
    assert(fields_view(v@) =~= exif_fields_of(*e).take(0));
    while i < n
        invariant
            i <= n,
            n == exif_fields_of(*e).len(),
            fields_view(v@) == exif_fields_of(*e).take(i as int),
        decreases n - i,
    {
        let ghost model = exif_fields_of(*e)[i as int];
        let (ctx, number) = exif_field_tag(e, i);
        let display = exif_field_display(e, i);
        let payload = exif_field_payload(e, i);
        let mut uints: Vec<u32> = Vec::new();
        let mut j: usize = 0;
        assert(uints@ =~= model.uints.take(0));
        loop
            invariant_except_break
                (j as int) <= model.uints.len(),
                j == uints@.len(),
                uints@ == model.uints.take(j as int),
                i < exif_fields_of(*e).len(),
                model == exif_fields_of(*e)[i as int],
            ensures
                uints@ == model.uints,
            decreases model.uints.len() - j,
        {
            let o = exif_field_uint(e, i, j);
            match o {
                Some(x) => {
                    uints.push(x);
                    proof {
                        assert(model.uints.take(j + 1 as int) =~= model.uints.take(
                            j as int,
                        ).push(model.uints[j as int]));
                    }
                    j = uints.len();
                },
                None => {
                    proof {
                        assert((j as int) == model.uints.len());
                        assert(model.uints.take(j as int) =~= model.uints);
                    }
                    break ;
                },
            }
        }
        let f = ExifField { ctx, number, display, payload, uints };
        assert(f@ == model);
        v.push(f);
        proof {
            assert(fields_view(v@) =~= exif_fields_of(*e).take(i as int).push(model));
            assert(exif_fields_of(*e).take(i + 1 as int) =~= exif_fields_of(*e).take(
                i as int,
            ).push(model));
        }
        i = i + 1;
    }
    assert(exif_fields_of(*e).take(exif_fields_of(*e).len() as int) =~= exif_fields_of(*e));
    v
}

/// The subject area a field's integer components describe: a rectangle
/// when four are present, a circle for three, a point for two; fewer
/// components are a recoverable miss that keeps the previous value.
pub open spec fn sa_of_uints(u: Seq<u32>, prev: SubjectArea) -> SubjectArea {
    if u.len() >= 4 {
        SubjectArea::Rect { x: u[0], y: u[1], width: u[2], height: u[3] }
    } else if u.len() == 3 {
        SubjectArea::Circle { x: u[0], y: u[1], diameter: u[2] }
    } else if u.len() == 2 {
        SubjectArea::Point { x: u[0], y: u[1] }
    } else {
        prev
    }
}

/// How one decoded field updates the intermediate record: the tag-of-interest
/// table. Rules are applied in a fixed order; a tag whose payload cannot be
/// decoded is a recoverable miss that leaves its target field unchanged.
pub open spec fn exif_step(st: ExtractionV, f: ExifFieldV) -> ExtractionV {
    let s1 = if f.number == TAG_XMP {
        match f.payload {
            FieldPayloadV::Bytes(b) => if vstd::utf8::valid_utf8(b) {
                ExtractionV { xmp: vstd::utf8::decode_utf8(b), ..st }
            } else {
                st
            },
            _ => st,
        }
    } else {
        st
    };
    let s2 = if f.number == TAG_IPTC {
        match f.payload {
            FieldPayloadV::Undefined(b) => if vstd::utf8::valid_utf8(b) {
                ExtractionV { iptc: vstd::utf8::decode_utf8(b), ..s1 }
            } else {
                s1
            },
            _ => s1,
        }
    } else {
        s1
    };
    let s3 = if f.ctx == TagContext::Exif && (f.number == TAG_SUBJECT_AREA || f.number
        == TAG_SUBJECT_LOCATION) {
        ExtractionV { subject_area: sa_of_uints(f.uints, s2.subject_area), ..s2 }
    } else {
        s2
    };
    let s4 = if f.ctx == TagContext::Tiff && f.number == TAG_IMAGE_DESCRIPTION {
        ExtractionV { description: f.display, ..s3 }
    } else {
        s3
    };
    let s5 = if f.ctx == TagContext::Tiff && f.number == TAG_COPYRIGHT {
        ExtractionV { copyright: f.display, ..s4 }
    } else {
        s4
    };
    let s6 = if f.ctx == TagContext::Tiff && f.number == TAG_MAKE {
        ExtractionV { make: f.display, ..s5 }
    } else {
        s5
    };
    let s7 = if f.ctx == TagContext::Tiff && f.number == TAG_MODEL {
        ExtractionV { model: f.display, ..s6 }
    } else {
        s6
    };
    let s8 = if f.ctx == TagContext::Exif && f.number == TAG_FLASH {
        ExtractionV { flash_found: f.display, ..s7 }
    } else {
        s7
    };
    let s9 = if (f.ctx == TagContext::Tiff && f.number == TAG_IMAGE_WIDTH) || (f.ctx
        == TagContext::Exif && f.number == TAG_PIXEL_X_DIMENSION) {
        ExtractionV { width: f.display, ..s8 }
    } else {
        s8
    };
    let s10 = if (f.ctx == TagContext::Tiff && f.number == TAG_IMAGE_LENGTH) || (f.ctx
        == TagContext::Exif && f.number == TAG_PIXEL_Y_DIMENSION) {
        ExtractionV { height: f.display, ..s9 }
    } else {
        s9
    };
    let s11 = if f.ctx == TagContext::Tiff && f.number == TAG_X_RESOLUTION {
        ExtractionV { res_x: Some(f.display), ..s10 }
    } else {
        s10
    };
    let s12 = if f.ctx == TagContext::Tiff && f.number == TAG_Y_RESOLUTION {
        ExtractionV { res_y: Some(f.display), ..s11 }
    } else {
        s11
    };
    let s13 = if f.ctx == TagContext::Gps && f.number == TAG_GPS_LATITUDE {
        ExtractionV { gps_lat: Some(f.display), ..s12 }
    } else {
        s12
    };
    let s14 = if f.ctx == TagContext::Gps && f.number == TAG_GPS_LONGITUDE {
        ExtractionV { gps_lon: Some(f.display), ..s13 }
    } else {
        s13
    };
    s14
}

pub open spec fn spec_exif_fold(st: ExtractionV, fields: Seq<ExifFieldV>) -> ExtractionV
    decreases fields.len(),
{
    if fields.len() == 0 {
        st
    } else {
        spec_exif_fold(exif_step(st, fields.first()), fields.drop_first())
    }
}

/// The record that a run of decoded fields extracts, starting from the
/// all-absent record.
pub open spec fn spec_apply_exif(fields: Seq<ExifFieldV>) -> ExtractionV {
    spec_exif_fold(spec_empty_extraction(), fields)
}

proof fn lemma_exif_fold_push(st: ExtractionV, fields: Seq<ExifFieldV>, f: ExifFieldV)
    ensures
        spec_exif_fold(st, fields.push(f)) == exif_step(spec_exif_fold(st, fields), f),
    decreases fields.len(),
{
    if fields.len() == 0 {
        assert(fields.push(f).first() == f);
        assert(fields.push(f).drop_first() =~= Seq::<ExifFieldV>::empty());
        assert(spec_exif_fold(exif_step(st, f), Seq::<ExifFieldV>::empty()) == exif_step(st, f));
    } else {
        assert(fields.push(f).first() == fields.first());
        assert(fields.push(f).drop_first() =~= fields.drop_first().push(f));
        lemma_exif_fold_push(exif_step(st, fields.first()), fields.drop_first(), f);
    }
}

/// Apply one decoded field to the intermediate record.
fn exif_step_exec(st: Extraction, f: &ExifField) -> (r: Extraction)
    ensures
        r@ == exif_step(st@, f@),
{
    let mut st = st;
    if f.number == TAG_XMP {
        if let FieldPayload::Bytes(b) = &f.payload {
            if let Some(s) = crate::text::utf8_to_string(b) {
                st.xmp = s;
            }
        }
    }
    if f.number == TAG_IPTC {
        if let FieldPayload::Undefined(b) = &f.payload {
            if let Some(s) = crate::text::utf8_to_string(b) {
                st.iptc = s;
            }
        }
    }
    if f.ctx == TagContext::Exif && (f.number == TAG_SUBJECT_AREA || f.number
        == TAG_SUBJECT_LOCATION) {
        if f.uints.len() >= 4 {
            st.subject_area = SubjectArea::Rect {
                x: f.uints[0],
                y: f.uints[1],
                width: f.uints[2],
                height: f.uints[3],
            };
        } else if f.uints.len() == 3 {
            st.subject_area = SubjectArea::Circle {
                x: f.uints[0],
                y: f.uints[1],
                diameter: f.uints[2],
            };
        } else if f.uints.len() == 2 {
            st.subject_area = SubjectArea::Point { x: f.uints[0], y: f.uints[1] };
        }
    }
    if f.ctx == TagContext::Tiff && f.number == TAG_IMAGE_DESCRIPTION {
        st.description = f.display.clone();
    }
    if f.ctx == TagContext::Tiff && f.number == TAG_COPYRIGHT {
        st.copyright = f.display.clone();
    }
    if f.ctx == TagContext::Tiff && f.number == TAG_MAKE {
        st.make = f.display.clone();
    }
    if f.ctx == TagContext::Tiff && f.number == TAG_MODEL {
        st.model = f.display.clone();
    }
    if f.ctx == TagContext::Exif && f.number == TAG_FLASH {
        st.flash_found = f.display.clone();
    }
    if (f.ctx == TagContext::Tiff && f.number == TAG_IMAGE_WIDTH) || (f.ctx == TagContext::Exif
        && f.number == TAG_PIXEL_X_DIMENSION) {
        st.width = f.display.clone();
    }
    if (f.ctx == TagContext::Tiff && f.number == TAG_IMAGE_LENGTH) || (f.ctx == TagContext::Exif
        && f.number == TAG_PIXEL_Y_DIMENSION) {
        st.height = f.display.clone();
    }
    if f.ctx == TagContext::Tiff && f.number == TAG_X_RESOLUTION {
        st.res_x = Some(f.display.clone());
    }
    if f.ctx == TagContext::Tiff && f.number == TAG_Y_RESOLUTION {
        st.res_y = Some(f.display.clone());
    }
    if f.ctx == TagContext::Gps && f.number == TAG_GPS_LATITUDE {
        st.gps_lat = Some(f.display.clone());
    }
    if f.ctx == TagContext::Gps && f.number == TAG_GPS_LONGITUDE {
        st.gps_lon = Some(f.display.clone());
    }
    st
}

/// Run the tag-of-interest table over a run of decoded fields, in order.
pub fn apply_exif_fields(fields: &Vec<ExifField>) -> (r: Extraction)
    ensures
        r@ == spec_apply_exif(fields_view(fields@)),
{
    let mut st = Extraction::empty();
    let mut i: usize = 0;
    assert(fields_view(fields@).take(0) =~= Seq::<ExifFieldV>::empty());
    while i < fields.len()
        invariant
            i <= fields@.len(),
            st@ == spec_exif_fold(spec_empty_extraction(), fields_view(fields@).take(i as int)),
        decreases fields@.len() - i,
    {
        st = exif_step_exec(st, &fields[i]);
        proof {
            lemma_exif_fold_push(
                spec_empty_extraction(),
                fields_view(fields@).take(i as int),
                fields@[i as int]@,
            );
            assert(fields_view(fields@).take(i + 1 as int) =~= fields_view(fields@).take(
                i as int,
            ).push(fields@[i as int]@));
        }
        i = i + 1;
    }
    assert(fields_view(fields@).take(fields@.len() as int) =~= fields_view(fields@));
    st
}

/// The whole EXIF path on a parsed container.
pub fn extract_exif(e: &exif::Exif) -> (r: Extraction)
    ensures
        r@ == spec_apply_exif(exif_fields_of(*e)),
{
    let fields = collect_exif_fields(e);
    apply_exif_fields(&fields)
}

} // verus!
