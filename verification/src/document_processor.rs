//! Documents go to a folder for their kind, which their extension tells.

use vstd::prelude::*;
use crate::category::{
    category_of, document_kind, document_kind_of, document_label, is_office_extension, label_of,
    DocumentKind, MimeKind,
};
use crate::organizer::MoveRun;
use crate::paths::{is_absolute, join_path, join_paths, lower_extension, lower_extension_of};
use crate::processing_mode::ProcessingMode;
use crate::traits::{place_file, processor_of, Processor, SourceFile, SourceFileView};

verus! {

/// Sends a document to the folder of its kind below `Documents`.
#[derive(Debug, Clone, Copy, PartialEq, Eq, Structural)]
pub struct DocumentProcessor;

/// The folder, below the destination, for documents with the extension
/// `ext`, in lower case.
pub open spec fn document_subfolder(ext: Seq<char>) -> Seq<char> {
    join_path("Documents"@, document_label(document_kind_of(ext)))
}

impl DocumentProcessor {
    /// The folder below `base_dest` for documents with the extension
    /// `extension`, in lower case: the folder of their kind in
    /// `Documents`.
    pub fn determine_destination_dir(&self, extension: &str, base_dest: &str) -> (folder: String)
        ensures
            folder@ == join_path(
                join_path(base_dest@, "Documents"@),
                document_label(document_kind_of(extension@)),
            ),
    {
        let documents = join_paths(base_dest, "Documents");
        let label = label_of(document_kind(extension));
        join_paths(documents.as_str(), label.as_str())
    }
}

impl Processor for DocumentProcessor {
    open spec fn subfolder(&self, file: SourceFileView) -> Seq<char> {
        document_subfolder(lower_extension(file.path))
    }

    fn get_destination_subfolder(&self, file: &SourceFile) -> (folder: String) {
        let extension = lower_extension_of(file.path.as_str());
        let label = label_of(document_kind(extension.as_str()));
        join_paths("Documents", label.as_str())
    }

    fn process(&self, file: &SourceFile, destination: &str, mode: &mut ProcessingMode) -> (run:
        Option<MoveRun>) {
        let folder = self.get_destination_subfolder(file);
        place_file(file.path.as_str(), destination, folder.as_str(), mode)
    }
}

/// The folder of a document does not start at the root.
pub proof fn lemma_document_folder_is_relative(ext: Seq<char>)
    ensures
        !is_absolute(document_subfolder(ext)),
{
    reveal_strlit("Documents");
    assert("Documents"@[0] == 'D' && "Documents"@.last() == 's');
    let label = document_label(document_kind_of(ext));
    match document_kind_of(ext) {
        DocumentKind::Word => {
            reveal_strlit("Word_Documents");
            assert("Word_Documents"@[0] == 'W');
        },
        DocumentKind::Excel => {
            reveal_strlit("Excel_Spreadsheets");
            assert("Excel_Spreadsheets"@[0] == 'E');
        },
        DocumentKind::PowerPoint => {
            reveal_strlit("PowerPoint_Presentations");
            assert("PowerPoint_Presentations"@[0] == 'P');
        },
        DocumentKind::Csv => {
            reveal_strlit("CSV_Files");
            assert("CSV_Files"@[0] == 'C');
        },
        DocumentKind::Config => {
            reveal_strlit("Config_Files");
            assert("Config_Files"@[0] == 'C');
        },
        DocumentKind::Pdf => {
            reveal_strlit("PDFs");
            assert("PDFs"@[0] == 'P');
        },
        DocumentKind::Web => {
            reveal_strlit("Web_Pages");
            assert("Web_Pages"@[0] == 'W');
        },
        DocumentKind::Text => {
            reveal_strlit("Text_Files");
            assert("Text_Files"@[0] == 'T');
        },
        DocumentKind::Uncategorized => {
            reveal_strlit("Uncategorized_Documents");
            assert("Uncategorized_Documents"@[0] == 'U');
        },
    }
    assert(!is_absolute(label));
    assert(document_subfolder(ext)[0] == 'D');
}

/// The folder of each kind of document, written out.
pub proof fn lemma_document_folder_names(kind: DocumentKind)
    ensures
        join_path("Documents"@, document_label(kind)) == match kind {
            DocumentKind::Word => "Documents/Word_Documents"@,
            DocumentKind::Excel => "Documents/Excel_Spreadsheets"@,
            DocumentKind::PowerPoint => "Documents/PowerPoint_Presentations"@,
            DocumentKind::Csv => "Documents/CSV_Files"@,
            DocumentKind::Config => "Documents/Config_Files"@,
            DocumentKind::Pdf => "Documents/PDFs"@,
            DocumentKind::Web => "Documents/Web_Pages"@,
            DocumentKind::Text => "Documents/Text_Files"@,
            DocumentKind::Uncategorized => "Documents/Uncategorized_Documents"@,
        },
{
    reveal_strlit("Documents");
    match kind {
        DocumentKind::Word => {
            reveal_strlit("Word_Documents");
            reveal_strlit("Documents/Word_Documents");
            assert("Documents"@.push('/') + "Word_Documents"@ =~= "Documents/Word_Documents"@);
        },
        DocumentKind::Excel => {
            reveal_strlit("Excel_Spreadsheets");
            reveal_strlit("Documents/Excel_Spreadsheets");
            assert("Documents"@.push('/') + "Excel_Spreadsheets"@
                =~= "Documents/Excel_Spreadsheets"@);
        },
        DocumentKind::PowerPoint => {
            reveal_strlit("PowerPoint_Presentations");
            reveal_strlit("Documents/PowerPoint_Presentations");
            assert("Documents"@.push('/') + "PowerPoint_Presentations"@
                =~= "Documents/PowerPoint_Presentations"@);
        },
        DocumentKind::Csv => {
            reveal_strlit("CSV_Files");
            reveal_strlit("Documents/CSV_Files");
            assert("Documents"@.push('/') + "CSV_Files"@ =~= "Documents/CSV_Files"@);
        },
        DocumentKind::Config => {
            reveal_strlit("Config_Files");
            reveal_strlit("Documents/Config_Files");
            assert("Documents"@.push('/') + "Config_Files"@ =~= "Documents/Config_Files"@);
        },
        DocumentKind::Pdf => {
            reveal_strlit("PDFs");
            reveal_strlit("Documents/PDFs");
            assert("Documents"@.push('/') + "PDFs"@ =~= "Documents/PDFs"@);
        },
        DocumentKind::Web => {
            reveal_strlit("Web_Pages");
            reveal_strlit("Documents/Web_Pages");
            assert("Documents"@.push('/') + "Web_Pages"@ =~= "Documents/Web_Pages"@);
        },
        DocumentKind::Text => {
            reveal_strlit("Text_Files");
            reveal_strlit("Documents/Text_Files");
            assert("Documents"@.push('/') + "Text_Files"@ =~= "Documents/Text_Files"@);
        },
        DocumentKind::Uncategorized => {
            reveal_strlit("Uncategorized_Documents");
            reveal_strlit("Documents/Uncategorized_Documents");
            assert("Documents"@.push('/') + "Uncategorized_Documents"@
                =~= "Documents/Uncategorized_Documents"@);
        },
    }
}

/// The extensions of documents are all different, so that each stands for
/// one kind.
pub proof fn lemma_document_kinds()
    ensures
        document_kind_of("doc"@) == DocumentKind::Word,
        document_kind_of("docx"@) == DocumentKind::Word,
        document_kind_of("xls"@) == DocumentKind::Excel,
        document_kind_of("xlsx"@) == DocumentKind::Excel,
        document_kind_of("ppt"@) == DocumentKind::PowerPoint,
        document_kind_of("pptx"@) == DocumentKind::PowerPoint,
        document_kind_of("csv"@) == DocumentKind::Csv,
        document_kind_of("json"@) == DocumentKind::Config,
        document_kind_of("yaml"@) == DocumentKind::Config,
        document_kind_of("yml"@) == DocumentKind::Config,
        document_kind_of("pdf"@) == DocumentKind::Pdf,
        document_kind_of("html"@) == DocumentKind::Web,
        document_kind_of("txt"@) == DocumentKind::Text,
{
    reveal_strlit("doc");
    reveal_strlit("docx");
    reveal_strlit("xls");
    reveal_strlit("xlsx");
    reveal_strlit("ppt");
    reveal_strlit("pptx");
    reveal_strlit("csv");
    reveal_strlit("json");
    reveal_strlit("yaml");
    reveal_strlit("yml");
    reveal_strlit("pdf");
    reveal_strlit("html");
    reveal_strlit("txt");
    assert("doc"@[0] == 'd' && "docx"@[0] == 'd');
    assert("xls"@[0] == 'x' && "xlsx"@[0] == 'x');
    assert("ppt"@[0] == 'p' && "pptx"@[0] == 'p' && "pdf"@[0] == 'p');
    assert("ppt"@[1] == 'p' && "pptx"@[1] == 'p' && "pdf"@[1] == 'd');
    assert("csv"@[0] == 'c' && "json"@[0] == 'j');
    assert("yaml"@[0] == 'y' && "yml"@[0] == 'y');
    assert("html"@[0] == 'h' && "txt"@[0] == 't');
}

/// A file that is taken for a document goes to the folder that its
/// extension asks for: one with a text type always does, and one with an
/// application type where its extension is that of an office document.
/// So every path that ends in `.doc` or `.docx` goes to
/// `Documents/Word_Documents`, and likewise for each kind.
pub proof fn lemma_documents_by_extension(file: SourceFileView, mime: MimeKind)
    requires
        mime == MimeKind::Text || (mime == MimeKind::Application && is_office_extension(
            lower_extension(file.path),
        )),
    ensures
        processor_of(category_of(mime, lower_extension(file.path))).subfolder(file) == match
            document_kind_of(lower_extension(file.path)) {
            DocumentKind::Word => "Documents/Word_Documents"@,
            DocumentKind::Excel => "Documents/Excel_Spreadsheets"@,
            DocumentKind::PowerPoint => "Documents/PowerPoint_Presentations"@,
            DocumentKind::Csv => "Documents/CSV_Files"@,
            DocumentKind::Config => "Documents/Config_Files"@,
            DocumentKind::Pdf => "Documents/PDFs"@,
            DocumentKind::Web => "Documents/Web_Pages"@,
            DocumentKind::Text => "Documents/Text_Files"@,
            DocumentKind::Uncategorized => "Documents/Uncategorized_Documents"@,
        },
{
    lemma_document_folder_names(document_kind_of(lower_extension(file.path)));
}

} // verus!
