//! The command-line surface, as plain data: which command was asked for and
//! with which options.  Parsing the actual process arguments is terminal
//! plumbing outside this library.

use vstd::prelude::*;

verus! {

/// The subcommands the tool offers.
#[derive(Debug)]
pub enum Commands {
    /// Initialize a new project in the directory.
    Init {
        /// Folder to be created. If not defined, use current directory.
        folder: Option<String>,
    },
    /// Build the project and generate a PDF file.
    Build {
        /// Which theme should be used: light, dark or something else?
        theme: Option<String>,
        /// File output name.
        output: Option<String>,
    },
}

/// The parsed invocation.
#[derive(Debug)]
pub struct Cli {
    /// A custom config file, when one was named.
    pub config: Option<String>,
    /// Verbose mode: the number of occurrences of the verbosity flag; zero
    /// shows only errors.
    pub verbose: u8,
    /// The subcommand, when one was named.
    pub commands: Option<Commands>,
}

} // verus!
