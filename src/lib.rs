//! Conversion between Markdown and office document formats: word-processing
//! documents, spreadsheets, presentations and page-layout documents.
use vstd::prelude::*;

pub mod archive;
pub mod docx;
pub mod error;
pub mod markdown;
pub mod pdf;
pub mod pptx;
pub mod shell;
pub mod table;
pub mod text;
pub mod xlsx;

pub use error::ConversionError;

verus! {

} // verus!
