use vstd::prelude::*;

verus! {

broadcast use vstd::string::group_string_axioms;

/// A named workspace with the directory and git branch it was last seen in.
#[derive(Clone)]
pub struct Workspace {
    pub name: String,
    pub working_directory: Option<String>,
    pub git_branch: Option<String>,
}

impl Workspace {
    /// A workspace with the given name and neither a directory nor a branch.
    pub fn new(name: String) -> (ws: Self)
        ensures
            ws.name@ == name@,
            ws.working_directory is None,
            ws.git_branch is None,
    {
        Workspace { name, working_directory: None, git_branch: None }
    }

    /// Records `cwd` as the working directory; the rest stays as it was.
    pub fn update_from_cwd(&mut self, cwd: &str)
        ensures
            final(self).working_directory matches Some(d) && d@ == cwd@,
            final(self).name == old(self).name,
            final(self).git_branch == old(self).git_branch,
    {
        self.working_directory = Some(cwd.to_string());
    }

    /// Records `branch` as the git branch; the rest stays as it was.
    pub fn set_git_branch(&mut self, branch: &str)
        ensures
            final(self).git_branch matches Some(b) && b@ == branch@,
            final(self).name == old(self).name,
            final(self).working_directory == old(self).working_directory,
    {
        self.git_branch = Some(branch.to_string());
    }
}

} // verus!
