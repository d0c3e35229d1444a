//! What every processor does, and the factories that pick a processor for
//! a file.

use vstd::prelude::*;
use vstd::string::*;
use crate::category::{category_of, categorize, mime_kind, mime_kind_of, Category, MimeKind};
use crate::compressed_file_processor::CompressedFileProcessor;
use crate::document_processor::{lemma_document_folder_is_relative, DocumentProcessor};
use crate::generic_processor::GenericProcessor;
use crate::image_processor::{lemma_image_folder_below_images, ImageProcessor, LocalDate};
use crate::organizer::{MoveRun, MoveRunView, PlannedMove, StageView};
use crate::paths::{
    components, file_name, file_name_of, is_absolute, join_path, join_paths,
    lemma_file_name_is_plain,
    lemma_joined_name, lower_extension, lower_extension_of, split_components,
};
use crate::processing_mode::ProcessingMode;
use crate::text::{same_text, text_of};
use crate::video_processor::VideoProcessor;
use crate::virtual_directory::lemma_insert_contains;

verus! {

/// What is known of a file when it is processed: its path, the time at
/// which it was taken where it is an image that says so, and the month in
/// which it was last modified where that could be read.
#[derive(Debug)]
pub struct SourceFile {
    pub path: String,
    pub capture_time: Option<String>,
    pub modified: Option<LocalDate>,
}

/// A source file over texts.
pub struct SourceFileView {
    pub path: Seq<char>,
    pub capture_time: Option<Seq<char>>,
    pub modified: Option<LocalDate>,
}

impl View for SourceFile {
    type V = SourceFileView;

    open spec fn view(&self) -> SourceFileView {
        SourceFileView {
            path: self.path@,
            capture_time: text_of(self.capture_time),
            modified: self.modified,
        }
    }
}

/// Where the file at `path` goes when its folder below `destination` is
/// `subfolder`: into that folder, under its own name.
pub open spec fn target_path(destination: Seq<char>, subfolder: Seq<char>, path: Seq<char>) -> Seq<
    char,
> {
    join_path(join_path(destination, subfolder), file_name(path)->0)
}

/// What processing a file comes to. A dry run adds the file's new path to
/// its tree and asks for nothing; a live run changes nothing and hands
/// back the move, with everything still to do.
pub open spec fn is_processed(
    destination: Seq<char>,
    subfolder: Seq<char>,
    path: Seq<char>,
    before: ProcessingMode,
    after: ProcessingMode,
    run: Option<MoveRun>,
) -> bool {
    match before {
        ProcessingMode::DryRun(tree) => {
            &&& after matches ProcessingMode::DryRun(grown)
            &&& grown.wf()
            &&& grown@ == tree@.insert(components(target_path(destination, subfolder, path)))
            &&& run is None
        },
        ProcessingMode::Live => {
            &&& after is Live
            &&& run matches Some(started)
            &&& started@ == (MoveRunView {
                source: path,
                destination: target_path(destination, subfolder, path),
                folder: join_path(destination, subfolder),
                stage: StageView::MakeDirectory,
            })
        },
    }
}

/// A file keeps its name when it is processed, and a dry run holds every
/// file that it has processed under the path to which a live run would
/// move it.
pub proof fn lemma_processed_file_is_filed(
    destination: Seq<char>,
    subfolder: Seq<char>,
    path: Seq<char>,
    before: ProcessingMode,
    after: ProcessingMode,
    run: Option<MoveRun>,
)
    requires
        file_name(path) is Some,
        is_processed(destination, subfolder, path, before, after, run),
    ensures
        file_name(target_path(destination, subfolder, path)) == file_name(path),
        before is DryRun ==> (after matches ProcessingMode::DryRun(grown) && grown@.contains(
            components(target_path(destination, subfolder, path)),
        )),
{
    lemma_file_name_is_plain(path);
    lemma_joined_name(join_path(destination, subfolder), file_name(path)->0);
    match before {
        ProcessingMode::DryRun(tree) => {
            lemma_insert_contains(tree@, components(target_path(destination, subfolder, path)));
        },
        ProcessingMode::Live => {},
    }
}

/// Sends the file at `path` to `subfolder` below `destination`: in a dry
/// run by adding its new path to the tree, in a live run by handing back
/// the move.
pub fn place_file(path: &str, destination: &str, subfolder: &str, mode: &mut ProcessingMode) -> (run:
    Option<MoveRun>)
    requires
        old(mode).wf(),
        file_name(path@) is Some,
    ensures
        final(mode).wf(),
        is_processed(destination@, subfolder@, path@, *old(mode), *final(mode), run),
{
    let folder = join_paths(destination, subfolder);
    let name = match file_name_of(path) {
        Some(name) => name,
        None => String::new(),
    };
    let target = join_paths(folder.as_str(), name.as_str());
    match mode {
        ProcessingMode::DryRun(tree) => {
            let parts = split_components(target.as_str());
            tree.add_path(parts.as_slice());
            None
        },
        ProcessingMode::Live => {
            Some(
                MoveRun::new(
                    PlannedMove { source: String::from_str(path), destination: target },
                    folder,
                ),
            )
        },
    }
}

/// A processor: it knows the folder for a file and sends the file there.
pub trait Processor {
    /// The folder for `file`, below the destination.
    spec fn subfolder(&self, file: SourceFileView) -> Seq<char>;

    /// The folder for `file`, below the destination.
    fn get_destination_subfolder(&self, file: &SourceFile) -> (folder: String)
        ensures
            folder@ == self.subfolder(file@),
    ;

    /// Sends `file` to its folder below `destination`.
    fn process(&self, file: &SourceFile, destination: &str, mode: &mut ProcessingMode) -> (run:
        Option<MoveRun>)
        requires
            old(mode).wf(),
            file_name(file.path@) is Some,
        ensures
            final(mode).wf(),
            is_processed(
                destination@,
                self.subfolder(file@),
                file.path@,
                *old(mode),
                *final(mode),
                run,
            ),
    ;
}

/// One of the processors.
#[derive(Debug, Clone, Copy, PartialEq, Eq, Structural)]
pub enum FileProcessor {
    Image(ImageProcessor),
    Video(VideoProcessor),
    Document(DocumentProcessor),
    Compressed(CompressedFileProcessor),
    Generic(GenericProcessor),
}

impl Processor for FileProcessor {
    open spec fn subfolder(&self, file: SourceFileView) -> Seq<char> {
        match self {
            FileProcessor::Image(p) => p.subfolder(file),
            FileProcessor::Video(p) => p.subfolder(file),
            FileProcessor::Document(p) => p.subfolder(file),
            FileProcessor::Compressed(p) => p.subfolder(file),
            FileProcessor::Generic(p) => p.subfolder(file),
        }
    }

    fn get_destination_subfolder(&self, file: &SourceFile) -> (folder: String) {
        match self {
            FileProcessor::Image(p) => p.get_destination_subfolder(file),
            FileProcessor::Video(p) => p.get_destination_subfolder(file),
            FileProcessor::Document(p) => p.get_destination_subfolder(file),
            FileProcessor::Compressed(p) => p.get_destination_subfolder(file),
            FileProcessor::Generic(p) => p.get_destination_subfolder(file),
        }
    }

    fn process(&self, file: &SourceFile, destination: &str, mode: &mut ProcessingMode) -> (run:
        Option<MoveRun>) {
        match self {
            FileProcessor::Image(p) => p.process(file, destination, mode),
            FileProcessor::Video(p) => p.process(file, destination, mode),
            FileProcessor::Document(p) => p.process(file, destination, mode),
            FileProcessor::Compressed(p) => p.process(file, destination, mode),
            FileProcessor::Generic(p) => p.process(file, destination, mode),
        }
    }
}

/// No processor's folder starts at the root, so that every file goes below
/// the destination: the folder it is sent to starts with the destination.
pub proof fn lemma_folder_below_destination(
    processor: FileProcessor,
    file: SourceFileView,
    destination: Seq<char>,
)
    ensures
        !is_absolute(processor.subfolder(file)),
        join_path(destination, processor.subfolder(file)).len() >= destination.len(),
        join_path(destination, processor.subfolder(file)).take(destination.len() as int)
            == destination,
{
    let folder = processor.subfolder(file);
    assert(!is_absolute(folder)) by {
        match processor {
            FileProcessor::Image(_) => {
                lemma_image_folder_below_images(file.capture_time, file.modified);
            },
            FileProcessor::Video(_) => {
                reveal_strlit("Videos");
            },
            FileProcessor::Document(_) => {
                lemma_document_folder_is_relative(lower_extension(file.path));
            },
            FileProcessor::Compressed(_) => {
                reveal_strlit("Compressed_Files");
            },
            FileProcessor::Generic(_) => {
                reveal_strlit("Other_Files");
            },
        }
    }
    let joined = join_path(destination, folder);
    assert(joined.take(destination.len() as int) =~= destination);
}

/// The processor for the files of a category.
pub open spec fn processor_of(category: Category) -> FileProcessor {
    match category {
        Category::Image => FileProcessor::Image(ImageProcessor),
        Category::Video => FileProcessor::Video(VideoProcessor),
        Category::Document(_) => FileProcessor::Document(DocumentProcessor),
        Category::Compressed => FileProcessor::Compressed(CompressedFileProcessor),
        Category::Other => FileProcessor::Generic(GenericProcessor),
    }
}

/// The processor for the files of a category.
pub fn processor_for(category: Category) -> (processor: FileProcessor)
    ensures
        processor == processor_of(category),
{
    match category {
        Category::Image => FileProcessor::Image(ImageProcessor),
        Category::Video => FileProcessor::Video(VideoProcessor),
        Category::Document(_) => FileProcessor::Document(DocumentProcessor),
        Category::Compressed => FileProcessor::Compressed(CompressedFileProcessor),
        Category::Other => FileProcessor::Generic(GenericProcessor),
    }
}

/// The category of a file with the media kind `mime`, and its folder
/// below the destination.
pub fn classify(file: &SourceFile, mime: MimeKind) -> (found: (Category, String))
    ensures
        found.0 == category_of(mime, lower_extension(file.path@)),
        found.1@ == processor_of(found.0).subfolder(file@),
{
    let extension = lower_extension_of(file.path.as_str());
    let category = categorize(mime, extension.as_str());
    let folder = processor_for(category).get_destination_subfolder(file);
    (category, folder)
}

/// What `mime_guess::from_path` takes the file at a path for: the
/// top-level type of its first guess, and that of
/// `application/octet-stream` where it has none.
pub uninterp spec fn guessed_type(path: Seq<char>) -> Seq<char>;

/// Has `mime_guess::from_path` guess the media type of a path by its
/// extension, takes the first guess or `application/octet-stream` where
/// there is none, and hands back its top-level type. The contract names
/// what comes back.
#[verifier::external_body]
fn guess_type(path: &str) -> (name: String)
    ensures
        name@ == guessed_type(path@),
{
    mime_guess::from_path(path).first_or_octet_stream().type_().as_str().to_string()
}

/// A factory picks the processor for a file.
pub trait ProcessorFactory {
    /// The processor that the factory picks for the file at `path`.
    spec fn choice(&self, path: Seq<char>) -> FileProcessor;

    /// The processor for the file at `path`.
    fn create_processor(&mut self, path: &str) -> (processor: FileProcessor)
        ensures
            processor == old(self).choice(path@),
    ;
}

/// Picks by the media type guessed for the path, and among application
/// types by the extension.
#[derive(Debug, Clone, Copy, PartialEq, Eq, Structural)]
pub struct DefaultProcessorFactory;

/// The processor for a file whose top-level media type is `top_type`.
pub open spec fn choice_by_type(top_type: Seq<char>, path: Seq<char>) -> FileProcessor {
    processor_of(category_of(mime_kind_of(top_type), lower_extension(path)))
}

/// The processor for a file whose top-level media type is `top_type`.
pub fn choose_processor(top_type: &str, path: &str) -> (processor: FileProcessor)
    ensures
        processor == choice_by_type(top_type@, path@),
{
    let extension = lower_extension_of(path);
    processor_for(categorize(mime_kind(top_type), extension.as_str()))
}

impl ProcessorFactory for DefaultProcessorFactory {
    open spec fn choice(&self, path: Seq<char>) -> FileProcessor {
        choice_by_type(guessed_type(path), path)
    }

    fn create_processor(&mut self, path: &str) -> (processor: FileProcessor) {
        let top_type = guess_type(path);
        choose_processor(top_type.as_str(), path)
    }
}

/// Picks by the extension alone, and keeps the name of what it picked
/// last.
#[derive(Debug)]
pub struct TestProcessorFactory {
    pub last_processor_type: Option<String>,
}

/// The processor that goes with the extension `ext`, in lower case, when
/// the extension alone decides.
pub open spec fn choice_by_extension(ext: Seq<char>) -> FileProcessor {
    if ext == "jpg"@ || ext == "png"@ {
        FileProcessor::Image(ImageProcessor)
    } else if ext == "docx"@ || ext == "txt"@ {
        FileProcessor::Document(DocumentProcessor)
    } else {
        FileProcessor::Generic(GenericProcessor)
    }
}

/// The name under which a pick is kept.
pub open spec fn pick_name(processor: FileProcessor) -> Seq<char> {
    match processor {
        FileProcessor::Image(_) => "ImageProcessor"@,
        FileProcessor::Document(_) => "DocumentProcessor"@,
        _ => "UnknownProcessor"@,
    }
}

impl ProcessorFactory for TestProcessorFactory {
    open spec fn choice(&self, path: Seq<char>) -> FileProcessor {
        choice_by_extension(lower_extension(path))
    }

    fn create_processor(&mut self, path: &str) -> (processor: FileProcessor)
        ensures
            text_of(final(self).last_processor_type) == Some(pick_name(processor)),
    {
        let extension = lower_extension_of(path);
        if same_text(extension.as_str(), "jpg") || same_text(extension.as_str(), "png") {
            self.last_processor_type = Some(String::from_str("ImageProcessor"));
            FileProcessor::Image(ImageProcessor)
        } else if same_text(extension.as_str(), "docx") || same_text(extension.as_str(), "txt") {
            self.last_processor_type = Some(String::from_str("DocumentProcessor"));
            FileProcessor::Document(DocumentProcessor)
        } else {
            self.last_processor_type = Some(String::from_str("UnknownProcessor"));
            FileProcessor::Generic(GenericProcessor)
        }
    }
}

} // verus!
