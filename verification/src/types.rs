use vstd::prelude::*;

verus! {

/// Which tag table a decoded field's tag number belongs to.
#[derive(Clone, Copy, PartialEq, Eq, Structural, Debug)]
pub enum TagContext {
    Tiff,
    Exif,
    Gps,
    Interop,
    Other,
}

/// The raw payload of a decoded field, as far as the extractor reads it:
/// a byte-array value, an "undefined"-typed blob, or anything else.
pub enum FieldPayload {
    Bytes(Vec<u8>),
    Undefined(Vec<u8>),
    Other,
}

pub ghost enum FieldPayloadV {
    Bytes(Seq<u8>),
    Undefined(Seq<u8>),
    Other,
}

impl View for FieldPayload {
    type V = FieldPayloadV;

    open spec fn view(&self) -> FieldPayloadV {
        match self {
            FieldPayload::Bytes(b) => FieldPayloadV::Bytes(b@),
            FieldPayload::Undefined(b) => FieldPayloadV::Undefined(b@),
            FieldPayload::Other => FieldPayloadV::Other,
        }
    }
}

/// One decoded metadata field: its tag identity, its rendered display text
/// (unit included), its raw payload, and its unsigned-integer components.
pub struct ExifField {
    pub ctx: TagContext,
    pub number: u16,
    pub display: String,
    pub payload: FieldPayload,
    pub uints: Vec<u32>,
}

pub ghost struct ExifFieldV {
    pub ctx: TagContext,
    pub number: u16,
    pub display: Seq<char>,
    pub payload: FieldPayloadV,
    pub uints: Seq<u32>,
}

impl View for ExifField {
    type V = ExifFieldV;

    open spec fn view(&self) -> ExifFieldV {
        ExifFieldV {
            ctx: self.ctx,
            number: self.number,
            display: self.display@,
            payload: self.payload@,
            uints: self.uints@,
        }
    }
}

pub open spec fn fields_view(s: Seq<ExifField>) -> Seq<ExifFieldV> {
    s.map_values(|f: ExifField| f@)
}

/// The subject-area region of interest: a point, a rectangle, or a circle.
/// A rectangle and a circle cannot be described at once.
#[derive(Clone, Copy, PartialEq, Eq, Structural, Debug)]
pub enum SubjectArea {
    Absent,
    Point { x: u32, y: u32 },
    Rect { x: u32, y: u32, width: u32, height: u32 },
    Circle { x: u32, y: u32, diameter: u32 },
}

/// One thumbnail descriptor pulled from the metadata packet.
pub struct Thumbnail {
    pub format: String,
    pub width: String,
    pub height: String,
    pub image: String,
}

pub ghost struct ThumbnailV {
    pub format: Seq<char>,
    pub width: Seq<char>,
    pub height: Seq<char>,
    pub image: Seq<char>,
}

impl View for Thumbnail {
    type V = ThumbnailV;

    open spec fn view(&self) -> ThumbnailV {
        ThumbnailV {
            format: self.format@,
            width: self.width@,
            height: self.height@,
            image: self.image@,
        }
    }
}

pub open spec fn thumbs_view(s: Seq<Thumbnail>) -> Seq<ThumbnailV> {
    s.map_values(|t: Thumbnail| t@)
}

/// The intermediate record that the extractors fill and the serializer
/// renders: scalar fields as plain text, structured fields in typed form.
pub struct Extraction {
    pub title: String,
    pub author: String,
    pub width: String,
    pub height: String,
    pub make: String,
    pub model: String,
    pub flash_found: String,
    pub copyright: String,
    pub description: String,
    pub xmp: String,
    pub iptc: String,
    pub original_document_id: String,
    pub res_x: Option<String>,
    pub res_y: Option<String>,
    pub gps_lat: Option<String>,
    pub gps_lon: Option<String>,
    pub subject_area: SubjectArea,
    pub thumbnails: Vec<Thumbnail>,
}

pub ghost struct ExtractionV {
    pub title: Seq<char>,
    pub author: Seq<char>,
    pub width: Seq<char>,
    pub height: Seq<char>,
    pub make: Seq<char>,
    pub model: Seq<char>,
    pub flash_found: Seq<char>,
    pub copyright: Seq<char>,
    pub description: Seq<char>,
    pub xmp: Seq<char>,
    pub iptc: Seq<char>,
    pub original_document_id: Seq<char>,
    pub res_x: Option<Seq<char>>,
    pub res_y: Option<Seq<char>>,
    pub gps_lat: Option<Seq<char>>,
    pub gps_lon: Option<Seq<char>>,
    pub subject_area: SubjectArea,
    pub thumbnails: Seq<ThumbnailV>,
}

impl View for Extraction {
    type V = ExtractionV;

    open spec fn view(&self) -> ExtractionV {
        ExtractionV {
            title: self.title@,
            author: self.author@,
            width: self.width@,
            height: self.height@,
            make: self.make@,
            model: self.model@,
            flash_found: self.flash_found@,
            copyright: self.copyright@,
            description: self.description@,
            xmp: self.xmp@,
            iptc: self.iptc@,
            original_document_id: self.original_document_id@,
            res_x: match &self.res_x {
                Some(s) => Some(s@),
                None => None,
            },
            res_y: match &self.res_y {
                Some(s) => Some(s@),
                None => None,
            },
            gps_lat: match &self.gps_lat {
                Some(s) => Some(s@),
                None => None,
            },
            gps_lon: match &self.gps_lon {
                Some(s) => Some(s@),
                None => None,
            },
            subject_area: self.subject_area,
            thumbnails: thumbs_view(self.thumbnails@),
        }
    }
}

pub open spec fn spec_empty_extraction() -> ExtractionV {
    ExtractionV {
        title: Seq::empty(),
        author: Seq::empty(),
        width: Seq::empty(),
        height: Seq::empty(),
        make: Seq::empty(),
        model: Seq::empty(),
        flash_found: Seq::empty(),
        copyright: Seq::empty(),
        description: Seq::empty(),
        xmp: Seq::empty(),
        iptc: Seq::empty(),
        original_document_id: Seq::empty(),
        res_x: None,
        res_y: None,
        gps_lat: None,
        gps_lon: None,
        subject_area: SubjectArea::Absent,
        thumbnails: Seq::empty(),
    }
}

impl Extraction {
    /// A record with every field at its "absent" default.
    pub fn empty() -> (r: Extraction)
        ensures
            r@ == spec_empty_extraction(),
    {
        let r = Extraction {
            title: String::new(),
            author: String::new(),
            width: String::new(),
            height: String::new(),
            make: String::new(),
            model: String::new(),
            flash_found: String::new(),
            copyright: String::new(),
            description: String::new(),
            xmp: String::new(),
            iptc: String::new(),
            original_document_id: String::new(),
            res_x: None,
            res_y: None,
            gps_lat: None,
            gps_lon: None,
            subject_area: SubjectArea::Absent,
            thumbnails: Vec::new(),
        };
        assert(thumbs_view(r.thumbnails@) =~= Seq::empty());
        assert(r@ =~= spec_empty_extraction());
        r
    }
}

} // verus!
