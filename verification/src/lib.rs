//! Sorts files into folders by what they are, shows beforehand what a run
//! would do, and undoes the last batch of moves.

pub mod category;
pub mod compressed_file_processor;
pub mod config;
pub mod document_processor;
pub mod file_processor;
pub mod generic_processor;
pub mod image_processor;
pub mod listing;
pub mod organizer;
pub mod paths;
pub mod processing_mode;
pub mod text;
pub mod traits;
pub mod undo;
pub mod video_processor;
pub mod virtual_directory;
