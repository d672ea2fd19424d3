//! Data model: documents, requests, results, and the error taxonomy.

use vstd::prelude::*;
use vstd::string::StringExecFns;

verus! {

/// One input document: a named byte payload with a declared MIME type.
/// `size` is derived and must always equal the content length.
#[derive(Debug, Clone)]
pub struct DocumentInfo {
    pub name: String,
    pub content: Vec<u8>,
    pub mime_type: String,
    pub size: u64,
}

impl DocumentInfo {
    /// The derived `size` field agrees with the byte length of the content.
    pub open spec fn wf(&self) -> bool {
        self.size == self.content@.len()
    }

    /// Builds a document, deriving `size` from the content.
    pub fn new(name: String, content: Vec<u8>, mime_type: String) -> (r: DocumentInfo)
        ensures
            r.wf(),
            r.name@ == name@,
            r.content@ == content@,
            r.mime_type@ == mime_type@,
            r.size == content@.len(),
    {
        let size = content.len() as u64;
        DocumentInfo { name, content, mime_type, size }
    }
}

/// A typed failure: a machine-readable code plus a human-readable message.
#[derive(Debug, Clone)]
pub struct ConversionError {
    pub message: String,
    pub code: String,
}

impl ConversionError {
    /// Builds an error from a code and a message.
    pub fn new(code: String, message: String) -> (r: ConversionError)
        ensures
            r.code@ == code@,
            r.message@ == message@,
    {
        ConversionError { message, code }
    }

    /// Renders the error as `code: message`.
    pub fn to_display_string(&self) -> (r: String)
        ensures
            r@ == self.code@ + ": "@ + self.message@,
    {
        let mut s = self.code.clone();
        s.append(": ");
        s.append(self.message.as_str());
        s
    }
}

/// One file of a conversion request; `content` is base64-encoded.
#[derive(Debug, Clone)]
pub struct FileData {
    pub name: String,
    pub content: String,
    pub mime_type: String,
}

/// A batch conversion request: documents, a profile tag, the requested
/// target formats, and per-format size ceilings.  A format absent from
/// `max_sizes` has no enforced limit.
#[derive(Debug, Clone)]
pub struct ConvertRequest {
    pub files: Vec<FileData>,
    pub exam_type: String,
    pub target_formats: Vec<String>,
    pub max_sizes: Vec<(String, u64)>,
}

/// Metadata for one successfully converted artifact.  `download_url` is an
/// opaque locator issued when the converted bytes are stored; the raw bytes
/// themselves are never part of the result.
#[derive(Debug, Clone)]
pub struct ConvertedFile {
    pub original_name: String,
    pub converted_name: String,
    pub download_url: String,
    pub format: String,
    pub size: u64,
}

/// Batch-level response: either every (document, format) pair succeeded and
/// `files` lists all results in request order, or `error` carries the first
/// failure and `files` is empty.
#[derive(Debug, Clone)]
pub struct ConvertResponse {
    pub success: bool,
    pub files: Vec<ConvertedFile>,
    pub error: Option<String>,
}

/// An exam profile: its display name, the formats it allows, and the
/// per-format byte ceilings.
#[derive(Debug, Clone)]
pub struct ExamConfig {
    pub name: String,
    pub formats: Vec<String>,
    pub max_sizes: Vec<(String, u64)>,
}

} // verus!
