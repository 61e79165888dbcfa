//! Where snippets are kept: the locations of a project.

use vstd::prelude::*;
use vstd::string::StringExecFns;

verus! {

/// Location of the snippets.
#[derive(Debug)]
pub struct SnippetLocation {
    /// The folder on this machine.
    pub local: String,
    /// The extension of the snippet files in it.
    pub ext: String,
    /// Whether the folder is a git repository, once that is known.
    pub git: Option<bool>,
}

impl SnippetLocation {
    /// The location used where nothing is configured: the folder `.snippets`
    /// under `home`, holding markdown files, its git status unknown.
    pub fn default(home: &String) -> (location: SnippetLocation)
        ensures
            location.local@ == home@ + "/.snippets"@,
            location.ext@ == "md"@,
            location.git is None,
    {
        let mut local = home.clone();
        local.append("/.snippets");
        SnippetLocation { local, ext: "md".to_owned(), git: None }
    }
}

/// Project folder structure.
pub struct Project {
    pub locations: Vec<SnippetLocation>,
}

/// A project, and whether its file was found or it was made up from defaults.
pub enum ProjectOperation {
    Exist(Project),
    NotExist(Project),
}

impl Project {
    /// The project used where no project file exists: the default location
    /// under `home` and nothing else.
    pub fn with_default_location(home: &String) -> (project: Project)
        ensures
            project.locations@.len() == 1,
            project.locations@[0].local@ == home@ + "/.snippets"@,
            project.locations@[0].ext@ == "md"@,
            project.locations@[0].git is None,
    {
        let mut locations: Vec<SnippetLocation> = Vec::new();
        locations.push(SnippetLocation::default(home));
        Project { locations }
    }
}

} // verus!
