//! The path logic of project initialization: where a new project lives and
//! where its lock marker sits.  Creating the directories and files themselves
//! is filesystem work outside this library.

use vstd::prelude::*;

use crate::paths::{join_path, join_path_spec};

verus! {

/// The initialization command's inputs: the working directory and the folder
/// to create, if any.
#[derive(Debug)]
pub struct Init {
    path: String,
    folder_to_create: Option<String>,
}

impl Init {
    /// The working directory this command starts from.
    pub closed spec fn spec_path(&self) -> Seq<char> {
        self.path@
    }

    /// The folder the command was asked to create, if any.
    pub closed spec fn spec_folder(&self) -> Option<String> {
        self.folder_to_create
    }

    /// Where the project lives: the folder to create under the working
    /// directory, or the working directory itself.
    pub open spec fn spec_project_folder(&self) -> Seq<char> {
        match self.spec_folder() {
            Some(folder) => join_path_spec(self.spec_path(), folder@),
            None => self.spec_path(),
        }
    }

    /// Creates the command with the provided path.
    pub fn new(path: String, folder_to_create: Option<String>) -> (r: Self)
        ensures
            r.spec_path() == path@,
            r.spec_folder() == folder_to_create,
    {
        Self { path, folder_to_create }
    }

    /// The folder the project is (to be) placed in.
    pub fn get_project_folder(&self) -> (r: String)
        ensures
            r@ == self.spec_project_folder(),
    {
        match &self.folder_to_create {
            Some(folder) => join_path(self.path.as_str(), folder.as_str()),
            None => self.path.clone(),
        }
    }

    /// The lock marker whose presence makes a directory a project.
    pub fn get_lock_file(&self) -> (r: String)
        ensures
            r@ == join_path_spec(self.spec_project_folder(), ".ws-lock"@),
    {
        let folder = self.get_project_folder();
        join_path(folder.as_str(), ".ws-lock")
    }
}

} // verus!
