//! Archives go to one folder.

use vstd::prelude::*;
use vstd::string::*;
use crate::organizer::MoveRun;
use crate::processing_mode::ProcessingMode;
use crate::traits::{place_file, Processor, SourceFile, SourceFileView};

verus! {

/// Sends every file to the folder `Compressed_Files`.
#[derive(Debug, Clone, Copy, PartialEq, Eq, Structural)]
pub struct CompressedFileProcessor;

impl Processor for CompressedFileProcessor {
    open spec fn subfolder(&self, file: SourceFileView) -> Seq<char> {
        "Compressed_Files"@
    }

    fn get_destination_subfolder(&self, file: &SourceFile) -> (folder: String) {
        String::from_str("Compressed_Files")
    }

    fn process(&self, file: &SourceFile, destination: &str, mode: &mut ProcessingMode) -> (run:
        Option<MoveRun>) {
        let folder = self.get_destination_subfolder(file);
        place_file(file.path.as_str(), destination, folder.as_str(), mode)
    }
}

} // verus!
