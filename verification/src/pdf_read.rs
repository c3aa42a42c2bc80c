use vstd::prelude::*;

use pdf::object::Resolve;

use crate::types::{Extraction, ExtractionV, spec_empty_extraction};
use crate::ContainerParseError;

verus! {

#[verifier::external_type_specification]
#[verifier::external_body]
#[verifier::reject_recursive_types(B)]
#[verifier::reject_recursive_types(OC)]
#[verifier::reject_recursive_types(SC)]
pub struct ExPdfFile<B, OC, SC>(pdf::file::File<B, OC, SC>);

#[verifier::external_type_specification]
#[verifier::external_body]
pub struct ExNoCache(pdf::file::NoCache);

/// A document parsed from a byte buffer, without object or stream caches.
pub type PdfDoc = pdf::file::File<Vec<u8>, pdf::file::NoCache, pdf::file::NoCache>;

/// Whether the byte buffer parses as a PDF document.
pub uninterp spec fn pdf_parses(b: Seq<u8>) -> bool;

/// The trailer Info dictionary of a parsed document, restricted to the
/// entries whose values decode as text.
pub uninterp spec fn pdf_info_of(f: PdfDoc) -> Map<Seq<char>, Seq<char>>;

/// The document's XMP metadata stream as text: present only when the
/// catalog names one, it resolves, and its bytes decode as UTF-8.
pub uninterp spec fn pdf_xmp_of(f: PdfDoc) -> Option<Seq<char>>;

/// The Info entries as a function of the input bytes alone.
pub uninterp spec fn pdf_info_spec(b: Seq<u8>) -> Map<Seq<char>, Seq<char>>;

/// The metadata stream text as a function of the input bytes alone.
pub uninterp spec fn pdf_xmp_spec(b: Seq<u8>) -> Option<Seq<char>>;

/// Relies on pdf's `FileOptions::uncached().load`: parsing is deterministic
/// in the bytes and returns `Err` exactly when the document structure
/// cannot be read.
#[verifier::external_body]
pub(crate) fn pdf_load(bytes: Vec<u8>) -> (r: Result<PdfDoc, ContainerParseError>)
    ensures
        r is Ok <==> pdf_parses(bytes@),
        r is Ok ==> pdf_info_of(r->Ok_0) == pdf_info_spec(bytes@) && pdf_xmp_of(r->Ok_0)
            == pdf_xmp_spec(bytes@),
{
    pdf::file::FileOptions::uncached().load(bytes).map_err(|_| ContainerParseError)
}

/// Relies on `Dictionary::get`, `Primitive::as_string` and
/// `PdfString::to_string` on the trailer Info dictionary: the entry under
/// the key, when its value decodes as text.
#[verifier::external_body]
pub(crate) fn pdf_info_get(f: &PdfDoc, key: &str) -> (r: Option<String>)
    ensures
        r is Some <==> pdf_info_of(*f).contains_key(key@),
        r is Some ==> r->Some_0@ == pdf_info_of(*f)[key@],
{
    match &f.trailer.info_dict {
        Some(d) => match d.get(key) {
            Some(p) => p.as_string().ok().and_then(|s| s.to_string().ok()),
            None => None,
        },
        None => None,
    }
}

/// Relies on the catalog's `Metadata` reference, `File::get` and
/// `Stream::data`: the metadata stream's bytes as UTF-8 text, when every
/// step succeeds.
#[verifier::external_body]
pub(crate) fn pdf_metadata_text(f: &PdfDoc) -> (r: Option<String>)
    ensures
        r is Some <==> pdf_xmp_of(*f) is Some,
        r is Some ==> r->Some_0@ == pdf_xmp_of(*f)->Some_0,
{
    let m = f.get_root().metadata?;
    let s = f.get(m).ok()?;
    let data = pdf::object::Stream::data(&s, f).ok()?;
    std::str::from_utf8(&data).ok().map(|t| t.to_string())
}

/// The record the PDF-info path extracts: `Title`, `Author` and `Subject`
/// from the Info dictionary, the metadata stream text as the raw XMP
/// payload, everything else left absent.
pub open spec fn spec_pdf_extraction(
    info: Map<Seq<char>, Seq<char>>,
    xmp: Option<Seq<char>>,
) -> ExtractionV {
    ExtractionV {
        title: if info.contains_key("Title"@) {
            info["Title"@]
        } else {
            Seq::empty()
        },
        author: if info.contains_key("Author"@) {
            info["Author"@]
        } else {
            Seq::empty()
        },
        description: if info.contains_key("Subject"@) {
            info["Subject"@]
        } else {
            Seq::empty()
        },
        xmp: match xmp {
            Some(x) => x,
            None => Seq::empty(),
        },
        ..spec_empty_extraction()
    }
}

/// The whole PDF-info path on a parsed document.
pub fn extract_pdf(f: &PdfDoc) -> (r: Extraction)
    ensures
        r@ == spec_pdf_extraction(pdf_info_of(*f), pdf_xmp_of(*f)),
{
    let mut st = Extraction::empty();
    if let Some(t) = pdf_info_get(f, "Title") {
        st.title = t;
    }
    if let Some(a) = pdf_info_get(f, "Author") {
        st.author = a;
    }
    if let Some(s) = pdf_info_get(f, "Subject") {
        st.description = s;
    }
    if let Some(x) = pdf_metadata_text(f) {
        st.xmp = x;
    }
    st
}

} // verus!
