//! The library's error type.  Every failure a build can surface is one of
//! these variants; the first error encountered aborts the build.

use vstd::prelude::*;

verus! {

/// An error of the document pipeline.
#[derive(Debug)]
pub enum WordsmithError {
    /// An unknown pipeline stage identifier.  Defensive: the stage set is a
    /// closed list, so the library itself never produces this.
    InvalidTag(String),
    /// A custom block whose closing tag does not correspond to its opening
    /// tag: the opening kind and the raw closing-tag text.
    InvalidComponentClosingTag(String, String),
    /// The directory is not a project (its lock marker is missing).
    ProjectNotFound,
    /// A new project would overwrite an existing one in the named folder.
    ProjectConflict(String),
    /// The configuration has no `cover` block.
    ConfigCoverNotDefined,
    /// The configuration's `cover` block has no usable `file` entry.
    ConfigCoverFileIsInvalid,
    /// No theme file exists at the named path.
    ThemeNotFound(String),
    /// Any underlying filesystem failure, as its message.
    IOError(String),
}

impl WordsmithError {
    /// The message shown for this error.
    pub open spec fn spec_message(&self) -> Seq<char> {
        match self {
            WordsmithError::InvalidTag(t) => "Invalid tag "@ + t@,
            WordsmithError::InvalidComponentClosingTag(opened, closed) => "Invalid closing tag "@
                + opened@ + ", "@ + closed@,
            WordsmithError::ProjectNotFound => "Project not found"@,
            WordsmithError::ProjectConflict(folder) => "Project already exists in "@ + folder@
                + " folder"@,
            WordsmithError::ConfigCoverNotDefined => "Cover configuration is missing or invalid"@,
            WordsmithError::ConfigCoverFileIsInvalid => "Cover configuration file is not defined or empty"@,
            WordsmithError::ThemeNotFound(theme) => "Theme "@ + theme@ + " not found"@,
            WordsmithError::IOError(message) => message@,
        }
    }

    /// Render the error as the text a user sees.
    pub fn message(&self) -> (r: String)
        ensures
            r@ == self.spec_message(),
    {
        match self {
            WordsmithError::InvalidTag(t) => {
                let mut r = String::from_str("Invalid tag ");
                r.append(t.as_str());
                r
            },
            WordsmithError::InvalidComponentClosingTag(opened, closed) => {
                let mut r = String::from_str("Invalid closing tag ");
                r.append(opened.as_str());
                r.append(", ");
                r.append(closed.as_str());
                r
            },
            WordsmithError::ProjectNotFound => String::from_str("Project not found"),
            WordsmithError::ProjectConflict(folder) => {
                let mut r = String::from_str("Project already exists in ");
                r.append(folder.as_str());
                r.append(" folder");
                r
            },
            WordsmithError::ConfigCoverNotDefined => String::from_str(
                "Cover configuration is missing or invalid",
            ),
            WordsmithError::ConfigCoverFileIsInvalid => String::from_str(
                "Cover configuration file is not defined or empty",
            ),
            WordsmithError::ThemeNotFound(theme) => {
                let mut r = String::from_str("Theme ");
                r.append(theme.as_str());
                r.append(" not found");
                r
            },
            WordsmithError::IOError(message) => message.clone(),
        }
    }
}

} // verus!
