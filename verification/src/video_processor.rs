//! Videos go to one folder.

use vstd::prelude::*;
use vstd::string::*;
use crate::organizer::MoveRun;
use crate::processing_mode::ProcessingMode;
use crate::traits::{place_file, Processor, SourceFile, SourceFileView};

verus! {

/// Sends every file to the folder `Videos`.
#[derive(Debug, Clone, Copy, PartialEq, Eq, Structural)]
pub struct VideoProcessor;

impl Processor for VideoProcessor {
    open spec fn subfolder(&self, file: SourceFileView) -> Seq<char> {
        "Videos"@
    }

    fn get_destination_subfolder(&self, file: &SourceFile) -> (folder: String) {
        String::from_str("Videos")
    }

    fn process(&self, file: &SourceFile, destination: &str, mode: &mut ProcessingMode) -> (run:
        Option<MoveRun>) {
        let folder = self.get_destination_subfolder(file);
        place_file(file.path.as_str(), destination, folder.as_str(), mode)
    }
}

} // verus!
