//! The two ways to run: lay the result out in memory, or move the files.

use vstd::prelude::*;
use crate::paths::{file_name, file_name_of};
use crate::text::{lemma_texts_push, split, split_text};
use crate::virtual_directory::{TreeView, VirtualDirectory};

verus! {

/// How files are processed. A dry run owns the tree that it fills; a live
/// run moves files and holds nothing.
pub enum ProcessingMode {
    DryRun(VirtualDirectory),
    Live,
}

/// The segments under which a dry run is asked for the file `file_path`
/// below `dest_path`: the pieces of `dest_path` between its separators,
/// then the file's name where the path has one.
pub open spec fn lookup_segments(file_path: Seq<char>, dest_path: Seq<char>) -> Seq<Seq<char>> {
    let pieces = split(dest_path, '/');
    match file_name(file_path) {
        Some(name) => pieces.push(name),
        None => pieces,
    }
}

impl ProcessingMode {
    /// Whether the tree of a dry run is well formed; a live run always is.
    pub open spec fn wf(&self) -> bool {
        match self {
            ProcessingMode::DryRun(tree) => tree.wf(),
            ProcessingMode::Live => true,
        }
    }

    /// Whether the tree of a dry run holds the file `file_path` below
    /// `dest_path`. A live run holds no tree and answers no.
    pub fn contains_file(&self, file_path: &str, dest_path: &str) -> (found: bool)
        requires
            self.wf(),
        ensures
            found == match self {
                ProcessingMode::DryRun(tree) => tree@.contains(
                    lookup_segments(file_path@, dest_path@),
                ),
                ProcessingMode::Live => false,
            },
    {
        match self {
            ProcessingMode::DryRun(tree) => {
                let mut segments = split_text(dest_path, '/');
                match file_name_of(file_path) {
                    Some(name) => {
                        proof {
                            lemma_texts_push(segments@, name);
                        }
                        segments.push(name);
                    },
                    None => {},
                }
                tree.contains_file(segments.as_slice())
            },
            ProcessingMode::Live => false,
        }
    }
}

/// The mode of a run: a dry run over an empty tree, or a live run.
pub fn determine_processing_mode(dry_run: bool) -> (mode: ProcessingMode)
    ensures
        mode.wf(),
        match mode {
            ProcessingMode::DryRun(tree) => dry_run && tree@ == TreeView::empty(),
            ProcessingMode::Live => !dry_run,
        },
{
    if dry_run {
        ProcessingMode::DryRun(VirtualDirectory::default())
    } else {
        ProcessingMode::Live
    }
}

} // verus!
