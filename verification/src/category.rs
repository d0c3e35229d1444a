//! The categories that files are sorted into, and the rules that pick one
//! from a file's media type and extension.

use vstd::prelude::*;
use vstd::string::*;
use crate::text::same_text;

verus! {

/// The top-level media type guessed for a file.
#[derive(Debug, Clone, Copy, PartialEq, Eq, Structural)]
pub enum MimeKind {
    Image,
    Video,
    Text,
    Application,
    Other,
}

/// The kinds of document, each with a folder of its own.
#[derive(Debug, Clone, Copy, PartialEq, Eq, Structural)]
pub enum DocumentKind {
    Word,
    Excel,
    PowerPoint,
    Csv,
    Config,
    Pdf,
    Web,
    Text,
    Uncategorized,
}

/// What a file is taken for.
#[derive(Debug, Clone, Copy, PartialEq, Eq, Structural)]
pub enum Category {
    Image,
    Video,
    Document(DocumentKind),
    Compressed,
    Other,
}

/// The media kind that the top-level type `name` stands for.
pub open spec fn mime_kind_of(name: Seq<char>) -> MimeKind {
    if name == "image"@ {
        MimeKind::Image
    } else if name == "video"@ {
        MimeKind::Video
    } else if name == "text"@ {
        MimeKind::Text
    } else if name == "application"@ {
        MimeKind::Application
    } else {
        MimeKind::Other
    }
}

/// The kind of document that the extension `ext`, in lower case, stands
/// for.
pub open spec fn document_kind_of(ext: Seq<char>) -> DocumentKind {
    if ext == "doc"@ || ext == "docx"@ {
        DocumentKind::Word
    } else if ext == "xls"@ || ext == "xlsx"@ {
        DocumentKind::Excel
    } else if ext == "ppt"@ || ext == "pptx"@ {
        DocumentKind::PowerPoint
    } else if ext == "csv"@ {
        DocumentKind::Csv
    } else if ext == "json"@ || ext == "yaml"@ || ext == "yml"@ {
        DocumentKind::Config
    } else if ext == "pdf"@ {
        DocumentKind::Pdf
    } else if ext == "html"@ {
        DocumentKind::Web
    } else if ext == "txt"@ {
        DocumentKind::Text
    } else {
        DocumentKind::Uncategorized
    }
}

/// The name of the folder of a kind of document.
pub open spec fn document_label(kind: DocumentKind) -> Seq<char> {
    match kind {
        DocumentKind::Word => "Word_Documents"@,
        DocumentKind::Excel => "Excel_Spreadsheets"@,
        DocumentKind::PowerPoint => "PowerPoint_Presentations"@,
        DocumentKind::Csv => "CSV_Files"@,
        DocumentKind::Config => "Config_Files"@,
        DocumentKind::Pdf => "PDFs"@,
        DocumentKind::Web => "Web_Pages"@,
        DocumentKind::Text => "Text_Files"@,
        DocumentKind::Uncategorized => "Uncategorized_Documents"@,
    }
}

/// Whether a file of an application type with the extension `ext`, in
/// lower case, is a document.
pub open spec fn is_office_extension(ext: Seq<char>) -> bool {
    ||| ext == "pdf"@
    ||| ext == "doc"@
    ||| ext == "docx"@
    ||| ext == "ppt"@
    ||| ext == "pptx"@
    ||| ext == "xlsx"@
    ||| ext == "xls"@
    ||| ext == "json"@
    ||| ext == "yml"@
}

/// Whether the extension `ext`, in lower case, is that of an archive.
pub open spec fn is_archive_extension(ext: Seq<char>) -> bool {
    ext == "zip"@ || ext == "tar"@ || ext == "rar"@ || ext == "7z"@
}

/// The category of a file with the media kind `mime` and the extension
/// `ext`, in lower case. The media kind decides first; among application
/// types the extension tells documents, archives and the rest apart.
pub open spec fn category_of(mime: MimeKind, ext: Seq<char>) -> Category {
    match mime {
        MimeKind::Image => Category::Image,
        MimeKind::Video => Category::Video,
        MimeKind::Text => Category::Document(document_kind_of(ext)),
        MimeKind::Application => if is_office_extension(ext) {
            Category::Document(document_kind_of(ext))
        } else if is_archive_extension(ext) {
            Category::Compressed
        } else {
            Category::Other
        },
        MimeKind::Other => Category::Other,
    }
}

/// The media kind that the top-level type `name` stands for.
pub fn mime_kind(name: &str) -> (kind: MimeKind)
    ensures
        kind == mime_kind_of(name@),
{
    if same_text(name, "image") {
        MimeKind::Image
    } else if same_text(name, "video") {
        MimeKind::Video
    } else if same_text(name, "text") {
        MimeKind::Text
    } else if same_text(name, "application") {
        MimeKind::Application
    } else {
        MimeKind::Other
    }
}

/// The kind of document that the extension `ext` stands for.
pub fn document_kind(ext: &str) -> (kind: DocumentKind)
    ensures
        kind == document_kind_of(ext@),
{
    if same_text(ext, "doc") || same_text(ext, "docx") {
        DocumentKind::Word
    } else if same_text(ext, "xls") || same_text(ext, "xlsx") {
        DocumentKind::Excel
    } else if same_text(ext, "ppt") || same_text(ext, "pptx") {
        DocumentKind::PowerPoint
    } else if same_text(ext, "csv") {
        DocumentKind::Csv
    } else if same_text(ext, "json") || same_text(ext, "yaml") || same_text(ext, "yml") {
        DocumentKind::Config
    } else if same_text(ext, "pdf") {
        DocumentKind::Pdf
    } else if same_text(ext, "html") {
        DocumentKind::Web
    } else if same_text(ext, "txt") {
        DocumentKind::Text
    } else {
        DocumentKind::Uncategorized
    }
}

/// The name of the folder of a kind of document.
pub fn label_of(kind: DocumentKind) -> (label: String)
    ensures
        label@ == document_label(kind),
{
    match kind {
        DocumentKind::Word => String::from_str("Word_Documents"),
        DocumentKind::Excel => String::from_str("Excel_Spreadsheets"),
        DocumentKind::PowerPoint => String::from_str("PowerPoint_Presentations"),
        DocumentKind::Csv => String::from_str("CSV_Files"),
        DocumentKind::Config => String::from_str("Config_Files"),
        DocumentKind::Pdf => String::from_str("PDFs"),
        DocumentKind::Web => String::from_str("Web_Pages"),
        DocumentKind::Text => String::from_str("Text_Files"),
        DocumentKind::Uncategorized => String::from_str("Uncategorized_Documents"),
    }
}

/// Whether `ext` marks a document among application types.
pub fn office_extension(ext: &str) -> (r: bool)
    ensures
        r == is_office_extension(ext@),
{
    same_text(ext, "pdf") || same_text(ext, "doc") || same_text(ext, "docx") || same_text(
        ext,
        "ppt",
    ) || same_text(ext, "pptx") || same_text(ext, "xlsx") || same_text(ext, "xls") || same_text(
        ext,
        "json",
    ) || same_text(ext, "yml")
}

/// Whether `ext` is the extension of an archive.
pub fn archive_extension(ext: &str) -> (r: bool)
    ensures
        r == is_archive_extension(ext@),
{
    same_text(ext, "zip") || same_text(ext, "tar") || same_text(ext, "rar") || same_text(ext, "7z")
}

/// The category of a file with the media kind `mime` and the extension
/// `ext`, in lower case.
pub fn categorize(mime: MimeKind, ext: &str) -> (category: Category)
    ensures
        category == category_of(mime, ext@),
{
    match mime {
        MimeKind::Image => Category::Image,
        MimeKind::Video => Category::Video,
        MimeKind::Text => Category::Document(document_kind(ext)),
        MimeKind::Application => {
            if office_extension(ext) {
                Category::Document(document_kind(ext))
            } else if archive_extension(ext) {
                Category::Compressed
            } else {
                Category::Other
            }
        },
        MimeKind::Other => Category::Other,
    }
}

} // verus!
