//! Content items returned by MCP tools, and files carried in them.
use vstd::prelude::*;
use vstd::string::*;
use vstd::utf8::encode_utf8;
use crate::text::{chars_of, copy_string, find_last, has_prefix, last_index_of, lemma_last_index_of, starts_with, str_eq, string_of, substring};

verus! {

/// Metadata of a file.
#[derive(Debug, Clone, PartialEq)]
pub struct FileMetadata {
    /// Original file name with extension.
    pub filename: String,
    /// MIME type, such as `application/pdf`.
    pub mime_type: String,
    /// File size in bytes.
    pub size_bytes: usize,
    /// Creation time, ISO 8601.
    pub created_at: String,
}

/// Whether two metadata records hold the same values.
pub open spec fn same_metadata(a: FileMetadata, b: FileMetadata) -> bool {
    &&& a.filename@ == b.filename@
    &&& a.mime_type@ == b.mime_type@
    &&& a.size_bytes == b.size_bytes
    &&& a.created_at@ == b.created_at@
}

impl FileMetadata {
    pub fn duplicate(&self) -> (r: FileMetadata)
        ensures
            same_metadata(r, *self),
    {
        FileMetadata {
            filename: copy_string(&self.filename),
            mime_type: copy_string(&self.mime_type),
            size_bytes: self.size_bytes,
            created_at: copy_string(&self.created_at),
        }
    }
}

/// A file: metadata and base64-encoded data.
#[derive(Debug, Clone, PartialEq)]
pub struct FileContent {
    pub metadata: FileMetadata,
    /// Base64-encoded file data.
    pub data: String,
}

/// Text after the last `.` of a file name, or the whole name when it has none.
pub open spec fn extension_of(name: Seq<char>) -> Option<Seq<char>> {
    if last_index_of(name, '.') < 0 {
        None
    } else {
        Some(name.skip(last_index_of(name, '.') + 1))
    }
}

impl FileContent {
    /// Whether the file is a PDF document.
    pub fn is_pdf(&self) -> (r: bool)
        ensures
            r == (self.metadata.mime_type@ == "application/pdf"@),
    {
        str_eq(self.metadata.mime_type.as_str(), "application/pdf")
    }

    /// Whether the file is an image.
    pub fn is_image(&self) -> (r: bool)
        ensures
            r == has_prefix(self.metadata.mime_type@, "image/"@),
    {
        starts_with(self.metadata.mime_type.as_str(), "image/")
    }

    /// The file name's extension: the text after its last `.`; none when
    /// the name has no `.`.
    pub fn extension(&self) -> (r: Option<&str>)
        ensures
            match extension_of(self.metadata.filename@) {
                Some(x) => r matches Some(e) && e@ == x,
                None => r is None,
            },
    {
        let v = chars_of(self.metadata.filename.as_str());
        proof {
            lemma_last_index_of(v@, '.');
        }
        let n = v.len();
        match find_last(&v, '.') {
            Some(i) => {
                assert(i < n);
                let start = i + 1;
                let e = self.metadata.filename.as_str().substring_char(start, v.len());
                assert(v@.subrange(start as int, v.len() as int) =~= v@.skip(start as int));
                Some(e)
            },
            None => None,
        }
    }
}

/// A content item from MCP tool output.
#[derive(Debug, Clone)]
pub struct ContentItem {
    /// Content type: `text` or `resource`.
    pub content_type: String,
    /// Text content.
    pub text: Option<String>,
    /// Base64-encoded data.
    pub data: Option<String>,
    /// MIME type.
    pub mime_type: Option<String>,
    /// File metadata.
    pub metadata: Option<FileMetadata>,
}

/// Prefix of the text of an item that names a generated file.
pub open spec fn generated_file_prefix() -> Seq<char> {
    "Generated file: "@
}

/// The file name recorded in an item's text: the text after
/// `Generated file: `, or `unknown`.
pub open spec fn generated_file_name(text: Option<String>) -> Seq<char> {
    match text {
        Some(t) => if has_prefix(t@, generated_file_prefix()) {
            t@.skip(generated_file_prefix().len() as int)
        } else {
            "unknown"@
        },
        None => "unknown"@,
    }
}

/// Whether `fc` is the file that `item` describes, created at `created_at`.
pub open spec fn file_content_of(item: ContentItem, created_at: Seq<char>, fc: FileContent) -> bool {
    let data = item.data.unwrap();
    let mime: Seq<char> = match item.mime_type {
        Some(m) => m@,
        None => "application/octet-stream"@,
    };
    &&& fc.data@ == data@
    &&& match item.metadata {
        Some(m) => same_metadata(fc.metadata, m),
        None => {
            &&& fc.metadata.filename@ == generated_file_name(item.text)
            &&& fc.metadata.mime_type@ == mime
            &&& fc.metadata.size_bytes == encode_utf8(data@).len() as usize
            &&& fc.metadata.created_at@ == created_at
        },
    }
}

impl ContentItem {
    /// Whether the item is text.
    pub fn is_text(&self) -> (r: bool)
        ensures
            r == (self.content_type@ == "text"@),
    {
        str_eq(self.content_type.as_str(), "text")
    }

    /// Whether the item is a resource (a file).
    pub fn is_resource(&self) -> (r: bool)
        ensures
            r == (self.content_type@ == "resource"@),
    {
        str_eq(self.content_type.as_str(), "resource")
    }

    /// The file this item carries, when it is a resource with data; its
    /// metadata is the item's own, or else built from the item with the
    /// given creation time.
    pub fn to_file_content(&self, created_at: &str) -> (r: Option<FileContent>)
        ensures
            r is Some <==> (self.content_type@ == "resource"@ && self.data is Some),
            r matches Some(fc) ==> file_content_of(*self, created_at@, fc),
    {
        if !self.is_resource() {
            return None;
        }
        let data = match &self.data {
            Some(d) => d,
            None => {
                return None;
            },
        };
        let mime_type = match &self.mime_type {
            Some(m) => copy_string(m),
            None => string_of("application/octet-stream"),
        };
        let metadata = match &self.metadata {
            Some(m) => m.duplicate(),
            None => {
                let filename = match &self.text {
                    Some(t) => {
                        if starts_with(t.as_str(), "Generated file: ") {
                            let v = chars_of(t.as_str());
                            let p = chars_of("Generated file: ");
                            let f = substring(&v, p.len(), v.len());
                            assert(v@.subrange(p@.len() as int, v@.len() as int) =~= v@.skip(
                                p@.len() as int,
                            ));
                            f
                        } else {
                            string_of("unknown")
                        }
                    },
                    None => string_of("unknown"),
                };
                FileMetadata {
                    filename,
                    mime_type,
                    size_bytes: data.as_str().len(),
                    created_at: string_of(created_at),
                }
            },
        };
        Some(FileContent { metadata, data: copy_string(data) })
    }
}

} // verus!
