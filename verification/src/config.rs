//! The settings of a run: where the files are, and where they go.

use vstd::prelude::*;
use vstd::string::*;

verus! {

/// The settings of a run.
#[derive(Debug)]
pub struct Config {
    /// The directories whose files are sorted.
    pub source_directories: Vec<String>,
    /// The directory that the files are sorted into.
    pub destination: String,
}

/// Why settings are refused.
#[derive(Debug, PartialEq, Eq)]
pub enum ConfigError {
    /// No source directory is named.
    NoSourceDirectory,
    /// This source directory does not exist.
    MissingSourceDirectory(String),
}

/// Whether the source directory with the number `i` is known to exist:
/// `present` says so for each directory, in order, and a directory that it
/// does not speak of counts as missing.
pub open spec fn is_present(present: Seq<bool>, i: int) -> bool {
    0 <= i < present.len() && present[i]
}

/// What is said of the refused source directory `name`.
pub open spec fn missing_message(name: Seq<char>) -> Seq<char> {
    "Source directory does not exist: "@ + name
}

impl ConfigError {
    /// The error in words.
    pub fn message(&self) -> (text: String)
        ensures
            text@ == match self {
                ConfigError::NoSourceDirectory => "At least one source directory must be specified."@,
                ConfigError::MissingSourceDirectory(name) => missing_message(name@),
            },
    {
        match self {
            ConfigError::NoSourceDirectory => String::from_str(
                "At least one source directory must be specified.",
            ),
            ConfigError::MissingSourceDirectory(name) => {
                let mut text = String::from_str("Source directory does not exist: ");
                text.append(name.as_str());
                text
            },
        }
    }
}

impl Config {
    /// Checks the settings, given for each source directory whether it
    /// exists. At least one source directory must be named, and each must
    /// exist: the first that does not is the one refused. The destination
    /// need not exist.
    pub fn validate(&self, present: &[bool]) -> (checked: Result<(), ConfigError>)
        ensures
            match checked {
                Ok(_) => self.source_directories@.len() > 0 && forall|i: int|
                    0 <= i < self.source_directories@.len() ==> is_present(present@, i),
                Err(ConfigError::NoSourceDirectory) => self.source_directories@.len() == 0,
                Err(ConfigError::MissingSourceDirectory(name)) => exists|i: int|
                    {
                        &&& 0 <= i < self.source_directories@.len()
                        &&& #[trigger] self.source_directories@[i]@ == name@
                        &&& !is_present(present@, i)
                        &&& forall|j: int| 0 <= j < i ==> is_present(present@, j)
                    },
            },
    {
        if self.source_directories.len() == 0 {
            return Err(ConfigError::NoSourceDirectory);
        }
        let mut i: usize = 0;
        while i < self.source_directories.len()
            invariant
                i <= self.source_directories@.len(),
                self.source_directories@.len() > 0,
                forall|j: int| 0 <= j < i ==> is_present(present@, j),
            decreases self.source_directories@.len() - i,
        {
            if i >= present.len() || !present[i] {
                let name = self.source_directories[i].clone();
                assert(self.source_directories@[i as int]@ == name@);
                return Err(ConfigError::MissingSourceDirectory(name));
            }
            i += 1;
        }
        Ok(())
    }
}

impl Default for Config {
    /// Settings that name no directory.
    fn default() -> (config: Config)
        ensures
            config.source_directories@.len() == 0,
            config.destination@.len() == 0,
    {
        Config { source_directories: Vec::new(), destination: String::new() }
    }
}

} // verus!
