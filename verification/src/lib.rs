//! Extraction of descriptive and technical metadata (title, author,
//! dimensions, resolution, GPS, camera identity, subject area, thumbnails,
//! document lineage) from image and PDF/PostScript containers, normalized
//! into one flat record with structured fields rendered as stable JSON text.

use vstd::prelude::*;

pub mod classify;
pub mod types;
pub mod text;
pub mod json;
pub mod exif_read;
pub mod xmp;
pub mod pdf_read;

verus! {

/// The chosen container decoder could not parse the byte buffer at all;
/// no partial record is produced.
#[derive(Clone, Copy, PartialEq, Eq, Structural, Debug)]
pub struct ContainerParseError;

/// The final flat metadata record. Every field is transport text: scalar
/// fields hold display strings (empty string means "absent"), structured
/// fields hold their JSON rendering. The record is built once by
/// extraction and is afterwards a plain value the caller may rewrite.
pub struct Metadata {
    pub title: String,
    pub author: String,
    pub width: String,
    pub height: String,
    pub resolution: String,
    pub make: String,
    pub model: String,
    pub flash_found: String,
    pub copyright: String,
    pub description: String,
    pub gps: String,
    pub xmp: String,
    pub iptc: String,
    pub subject_area: String,
    pub thumbnails: String,
    pub original_document_id: String,
}

pub ghost struct MetadataV {
    pub title: Seq<char>,
    pub author: Seq<char>,
    pub width: Seq<char>,
    pub height: Seq<char>,
    pub resolution: Seq<char>,
    pub make: Seq<char>,
    pub model: Seq<char>,
    pub flash_found: Seq<char>,
    pub copyright: Seq<char>,
    pub description: Seq<char>,
    pub gps: Seq<char>,
    pub xmp: Seq<char>,
    pub iptc: Seq<char>,
    pub subject_area: Seq<char>,
    pub thumbnails: Seq<char>,
    pub original_document_id: Seq<char>,
}

impl View for Metadata {
    type V = MetadataV;

    open spec fn view(&self) -> MetadataV {
        MetadataV {
            title: self.title@,
            author: self.author@,
            width: self.width@,
            height: self.height@,
            resolution: self.resolution@,
            make: self.make@,
            model: self.model@,
            flash_found: self.flash_found@,
            copyright: self.copyright@,
            description: self.description@,
            gps: self.gps@,
            xmp: self.xmp@,
            iptc: self.iptc@,
            subject_area: self.subject_area@,
            thumbnails: self.thumbnails@,
            original_document_id: self.original_document_id@,
        }
    }
}

impl Metadata {
    pub fn title(&self) -> (r: String)
        ensures
            r@ == self.title@,
    {
        self.title.clone()
    }

    pub fn set_title(&mut self, title: String)
        ensures
            final(self)@ == (MetadataV { title: title@, ..old(self)@ }),
    {
        self.title = title;
    }

    pub fn author(&self) -> (r: String)
        ensures
            r@ == self.author@,
    {
        self.author.clone()
    }

    pub fn set_author(&mut self, author: String)
        ensures
            final(self)@ == (MetadataV { author: author@, ..old(self)@ }),
    {
        self.author = author;
    }

    pub fn width(&self) -> (r: String)
        ensures
            r@ == self.width@,
    {
        self.width.clone()
    }

    pub fn set_width(&mut self, width: String)
        ensures
            final(self)@ == (MetadataV { width: width@, ..old(self)@ }),
    {
        self.width = width;
    }

    pub fn height(&self) -> (r: String)
        ensures
            r@ == self.height@,
    {
        self.height.clone()
    }

    pub fn set_height(&mut self, height: String)
        ensures
            final(self)@ == (MetadataV { height: height@, ..old(self)@ }),
    {
        self.height = height;
    }

    pub fn resolution(&self) -> (r: String)
        ensures
            r@ == self.resolution@,
    {
        self.resolution.clone()
    }

    pub fn set_resolution(&mut self, resolution: String)
        ensures
            final(self)@ == (MetadataV { resolution: resolution@, ..old(self)@ }),
    {
        self.resolution = resolution;
    }

    pub fn make(&self) -> (r: String)
        ensures
            r@ == self.make@,
    {
        self.make.clone()
    }

    pub fn set_make(&mut self, make: String)
        ensures
            final(self)@ == (MetadataV { make: make@, ..old(self)@ }),
    {
        self.make = make;
    }

    pub fn model(&self) -> (r: String)
        ensures
            r@ == self.model@,
    {
        self.model.clone()
    }

    pub fn set_model(&mut self, model: String)
        ensures
            final(self)@ == (MetadataV { model: model@, ..old(self)@ }),
    {
        self.model = model;
    }

    pub fn copyright(&self) -> (r: String)
        ensures
            r@ == self.copyright@,
    {
        self.copyright.clone()
    }

    pub fn set_copyright(&mut self, copyright: String)
        ensures
            final(self)@ == (MetadataV { copyright: copyright@, ..old(self)@ }),
    {
        self.copyright = copyright;
    }

    pub fn description(&self) -> (r: String)
        ensures
            r@ == self.description@,
    {
        self.description.clone()
    }

    pub fn set_description(&mut self, description: String)
        ensures
            final(self)@ == (MetadataV { description: description@, ..old(self)@ }),
    {
        self.description = description;
    }

    pub fn flash_found(&self) -> (r: String)
        ensures
            r@ == self.flash_found@,
    {
        self.flash_found.clone()
    }

    pub fn set_flash_found(&mut self, flash_found: String)
        ensures
            final(self)@ == (MetadataV { flash_found: flash_found@, ..old(self)@ }),
    {
        self.flash_found = flash_found;
    }

    pub fn gps(&self) -> (r: String)
        ensures
            r@ == self.gps@,
    {
        self.gps.clone()
    }

    pub fn set_gps(&mut self, gps: String)
        ensures
            final(self)@ == (MetadataV { gps: gps@, ..old(self)@ }),
    {
        self.gps = gps;
    }

    pub fn xmp(&self) -> (r: String)
        ensures
            r@ == self.xmp@,
    {
        self.xmp.clone()
    }

    pub fn set_xmp(&mut self, xmp: String)
        ensures
            final(self)@ == (MetadataV { xmp: xmp@, ..old(self)@ }),
    {
        self.xmp = xmp;
    }

    pub fn iptc(&self) -> (r: String)
        ensures
            r@ == self.iptc@,
    {
        self.iptc.clone()
    }

    pub fn set_iptc(&mut self, iptc: String)
        ensures
            final(self)@ == (MetadataV { iptc: iptc@, ..old(self)@ }),
    {
        self.iptc = iptc;
    }

    pub fn subject_area(&self) -> (r: String)
        ensures
            r@ == self.subject_area@,
    {
        self.subject_area.clone()
    }

    pub fn set_subject_area(&mut self, subject_area: String)
        ensures
            final(self)@ == (MetadataV { subject_area: subject_area@, ..old(self)@ }),
    {
        self.subject_area = subject_area;
    }

    pub fn thumbnails(&self) -> (r: String)
        ensures
            r@ == self.thumbnails@,
    {
        self.thumbnails.clone()
    }

    pub fn set_thumbnails(&mut self, thumbnail_data: String)
        ensures
            final(self)@ == (MetadataV { thumbnails: thumbnail_data@, ..old(self)@ }),
    {
        self.thumbnails = thumbnail_data;
    }

    pub fn original_document_id(&self) -> (r: String)
        ensures
            r@ == self.original_document_id@,
    {
        self.original_document_id.clone()
    }

    pub fn set_original_document_id(&mut self, document_id: String)
        ensures
            final(self)@ == (MetadataV { original_document_id: document_id@, ..old(self)@ }),
    {
        self.original_document_id = document_id;
    }
}

/// Serialize the intermediate record into the final flat record: scalar
/// fields pass through, structured fields get their JSON rendering.
pub open spec fn spec_render(e: types::ExtractionV) -> MetadataV {
    MetadataV {
        title: e.title,
        author: e.author,
        width: e.width,
        height: e.height,
        resolution: json::spec_enc_resolution(e.res_x, e.res_y),
        make: e.make,
        model: e.model,
        flash_found: e.flash_found,
        copyright: e.copyright,
        description: e.description,
        gps: json::spec_enc_gps(e.gps_lat, e.gps_lon),
        xmp: e.xmp,
        iptc: e.iptc,
        subject_area: json::spec_enc_subject_area(e.subject_area),
        thumbnails: json::spec_enc_thumbnails(e.thumbnails),
        original_document_id: e.original_document_id,
    }
}

/// Render the intermediate record into the final record.
pub fn render(ex: types::Extraction) -> (r: Metadata)
    ensures
        r@ == spec_render(ex@),
{
    let resolution = json::encode_resolution(&ex.res_x, &ex.res_y);
    let gps = json::encode_gps(&ex.gps_lat, &ex.gps_lon);
    let subject_area = json::encode_subject_area(&ex.subject_area);
    let thumbnails = json::encode_thumbnails(&ex.thumbnails);
    Metadata {
        title: ex.title,
        author: ex.author,
        width: ex.width,
        height: ex.height,
        resolution,
        make: ex.make,
        model: ex.model,
        flash_found: ex.flash_found,
        copyright: ex.copyright,
        description: ex.description,
        gps,
        xmp: ex.xmp,
        iptc: ex.iptc,
        subject_area,
        thumbnails,
        original_document_id: ex.original_document_id,
    }
}

/// If the extractor left a raw XMP payload, walk it and let its fields
/// overwrite the record; a payload that does not parse as well-formed XML
/// leaves the record as it was.
pub open spec fn spec_run_xmp(e: types::ExtractionV) -> types::ExtractionV {
    if e.xmp.len() > 0 {
        match xmp::xml_tree_of(e.xmp) {
            Some(root) => xmp::spec_apply_xmp(root, e),
            None => e,
        }
    } else {
        e
    }
}

pub fn run_xmp(ex: types::Extraction) -> (r: types::Extraction)
    ensures
        r@ == spec_run_xmp(ex@),
{
    if !ex.xmp.as_str().is_empty() {
        let parsed = xmp::parse_xml_tree(ex.xmp.as_str());
        match parsed {
            Some(root) => xmp::apply_xmp(&root, ex),
            None => ex,
        }
    } else {
        ex
    }
}

/// What the EXIF path produces from the input bytes: decode the tag table,
/// run the tag-of-interest rules, walk any embedded XMP payload, render.
pub open spec fn spec_exif_pipeline(b: Seq<u8>) -> MetadataV {
    spec_render(spec_run_xmp(exif_read::spec_apply_exif(exif_read::exif_fields_spec(b))))
}

/// What the PDF path produces from the input bytes: read the Info
/// dictionary and the metadata stream, walk any XMP payload, render.
pub open spec fn spec_pdf_pipeline(b: Seq<u8>) -> MetadataV {
    spec_render(
        spec_run_xmp(
            pdf_read::spec_pdf_extraction(pdf_read::pdf_info_spec(b), pdf_read::pdf_xmp_spec(b)),
        ),
    )
}

impl Metadata {
    /// Extract one complete record from a byte buffer and its declared MIME
    /// type. A PDF or PostScript MIME type routes to the PDF-info path,
    /// everything else to the EXIF path; exactly one of the two runs. The
    /// call fails exactly when the chosen container decoder cannot read the
    /// buffer's structure at all; a missing or malformed individual field
    /// never fails the call.
    pub fn get_metadata(vector: Vec<u8>, mime_type: String) -> (r: Result<
        Metadata,
        ContainerParseError,
    >)
        ensures
            classify::is_pdf_mime(mime_type@) ==> ((r is Ok <==> pdf_read::pdf_parses(vector@)) && (
            r is Ok ==> r->Ok_0@ == spec_pdf_pipeline(vector@))),
            !classify::is_pdf_mime(mime_type@) ==> ((r is Ok <==> exif_read::exif_parses(vector@))
                && (r is Ok ==> r->Ok_0@ == spec_exif_pipeline(vector@))),
    {
        let route = classify::classify(&mime_type);
        let ex: types::Extraction = match route {
            classify::Route::Pdf => {
                let f = match pdf_read::pdf_load(vector) {
                    Ok(f) => f,
                    Err(e) => {
                        return Err(e);
                    },
                };
                pdf_read::extract_pdf(&f)
            },
            classify::Route::Exif => {
                let e = match exif_read::exif_load(vector) {
                    Ok(x) => x,
                    Err(er) => {
                        return Err(er);
                    },
                };
                exif_read::extract_exif(&e)
            },
        };
        let ex = run_xmp(ex);
        Ok(render(ex))
    }
}

} // verus!
