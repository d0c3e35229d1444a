//! One file at a time: a factory picks the processor, and the processor
//! sends the file on its way.

use vstd::prelude::*;
use crate::organizer::MoveRun;
use crate::paths::file_name;
use crate::processing_mode::ProcessingMode;
use crate::traits::{is_processed, Processor, ProcessorFactory, SourceFile};

verus! {

/// Processes `file` with the processor that `factory` picks for it: a dry
/// run files it in its tree, a live run hands back the move to its folder
/// below `destination`.
pub fn process_file<F: ProcessorFactory>(
    factory: &mut F,
    file: &SourceFile,
    destination: &str,
    mode: &mut ProcessingMode,
) -> (run: Option<MoveRun>)
    requires
        old(mode).wf(),
        file_name(file.path@) is Some,
    ensures
        final(mode).wf(),
        is_processed(
            destination@,
            old(factory).choice(file.path@).subfolder(file@),
            file.path@,
            *old(mode),
            *final(mode),
            run,
        ),
{
    let processor = factory.create_processor(file.path.as_str());
    processor.process(file, destination, mode)
}

} // verus!
