//! File attachments.
use vstd::prelude::*;

verus! {

/// Kind of an attached file.
#[derive(Debug, Clone, Copy, PartialEq, Eq, Structural)]
pub enum AttachmentType {
    Text,
    Pdf,
    Image,
}

/// An attached file.
#[derive(Debug, Clone)]
pub struct Attachment {
    pub id: String,
    pub file_name: String,
    pub file_path: String,
    pub attachment_type: AttachmentType,
    pub size_bytes: u64,
    /// Text extracted from a text or PDF file.
    pub extracted_text: Option<String>,
    /// Base64 encoding of an image.
    pub base64_data: Option<String>,
}

/// Largest size of an attached file: 10 MiB.
pub const MAX_FILE_SIZE: u64 = 10 * 1024 * 1024;

} // verus!
