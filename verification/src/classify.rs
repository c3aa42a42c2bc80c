use vstd::prelude::*;

verus! {

/// The two extraction paths a container can be routed to.
#[derive(Clone, Copy, PartialEq, Eq, Structural, Debug)]
pub enum Route {
    Pdf,
    Exif,
}

/// The declared MIME types that select the PDF-info path; every other
/// declared type selects the EXIF path.
pub open spec fn is_pdf_mime(m: Seq<char>) -> bool {
    m == "application/pdf"@ || m == "application/postscript"@
}

/// Pick the extraction path from the declared MIME type alone; the byte
/// buffer is not examined here, so malformed containers surface only
/// inside the chosen extractor.
pub fn classify(mime_type: &String) -> (r: Route)
    ensures
        r == Route::Pdf <==> is_pdf_mime(mime_type@),
{
    if *mime_type == "application/pdf".to_owned() || *mime_type == "application/postscript".to_owned() {
        Route::Pdf
    } else {
        Route::Exif
    }
}

} // verus!
