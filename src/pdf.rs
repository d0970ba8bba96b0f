//! Page-layout documents: the Markdown of extracted text, and export through
//! markdown2pdf.
use vstd::prelude::*;

use markdown2pdf::MdpError;

use crate::error::ConversionError;
use crate::text::{chars_of, push_str, string_of};

verus! {

#[verifier::external_type_specification]
#[verifier::external_body]
pub struct ExMdpError(MdpError);

/// The blockquote put before imported text: what the import cannot keep.
pub const PDF_IMPORT_NOTICE: &'static str = "> **Import Notice**: This PDF was imported as plain text.\n> Images, tables, and complex formatting have been removed.\n\n";

/// Relies on `markdown2pdf::parse_into_bytes` with the default theme and the
/// fonts found on the machine: the rendered PDF, or the renderer's error.
#[verifier::external_body]
fn render_pdf(markdown: &str) -> (r: Result<Vec<u8>, MdpError>) {
    markdown2pdf::parse_into_bytes(
        markdown.to_string(),
        markdown2pdf::config::ConfigSource::Default,
        None,
    )
}

/// Relies on `Display for markdown2pdf::MdpError`: the error's message.
#[verifier::external_body]
fn mdp_error_text(e: &MdpError) -> (r: String) {
    e.to_string()
}

/// The Markdown for text extracted from a page-layout document: the notice,
/// then the text unchanged.
pub fn pdf_markdown_from_text(text: &str) -> (r: String)
    ensures
        r@ == PDF_IMPORT_NOTICE@ + text@,
{
    let mut out = chars_of(PDF_IMPORT_NOTICE);
    push_str(&mut out, text);
    string_of(&out)
}

/// The Markdown of a page-layout document from the outcome of extracting its
/// text: the notice, then the text; or, where extraction failed with a
/// message, that message after `Failed to extract PDF text: `.
pub fn pdf_to_markdown(extracted: Result<String, String>) -> (r: Result<String, ConversionError>)
    ensures
        extracted matches Ok(t) ==> r matches Ok(s) && s@ == PDF_IMPORT_NOTICE@ + t@,
        extracted matches Err(m) ==> r matches Err(e) && e.0@ == "Failed to extract PDF text"@
            + ": "@ + m@,
{
    match extracted {
        Ok(text) => Ok(pdf_markdown_from_text(text.as_str())),
        Err(m) => Err(ConversionError::with_cause("Failed to extract PDF text", m.as_str())),
    }
}

/// Renders Markdown as a page-layout document and returns its bytes.
pub fn markdown_to_pdf(markdown: &str) -> (r: Result<Vec<u8>, ConversionError>)
    ensures
        r matches Err(e) ==> exists|cause: Seq<char>| e.0@ == "PDF export failed"@ + ": "@ + cause,
{
    match render_pdf(markdown) {
        Ok(bytes) => Ok(bytes),
        Err(e) => {
            let m = mdp_error_text(&e);
            let r = ConversionError::with_cause("PDF export failed", m.as_str());
            assert(r.0@ == "PDF export failed"@ + ": "@ + m@);
            Err(r)
        },
    }
}

} // verus!
