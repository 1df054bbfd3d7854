//! The set of permissions that a profile is generated from, and the
//! validation of the paths named in it.

use std::path::PathBuf;
use vstd::prelude::*;
use vstd::string::*;

verus! {

/// `std::path::PathBuf`, a path of the file system. Nothing of its inside is
/// known here.
#[verifier::external_type_specification]
#[verifier::external_body]
pub struct ExPathBuf(PathBuf);

/// The text that `path` holds, as `Path::to_string_lossy` gives it.
pub uninterp spec fn path_text(path: PathBuf) -> Seq<char>;

/// The text that `path` is displayed as, through `Path::display`.
pub uninterp spec fn path_display(path: PathBuf) -> Seq<char>;

/// Calls `Path::exists`: whether the file system holds an entry at `path` at
/// the time of the call, links followed; `false` too where the entry cannot be
/// reached. The answer depends on the file system, so nothing is claimed of
/// it.
#[verifier::external_body]
fn path_exists(path: &PathBuf) -> (found: bool) {
    path.exists()
}

/// Calls `Path::to_string_lossy` and takes the text it gives as a `String`. The
/// text depends on the path alone; it is named `path_text`.
#[verifier::external_body]
fn lossy_text(path: &PathBuf) -> (text: String)
    ensures
        text@ == path_text(*path),
{
    path.to_string_lossy().into_owned()
}

/// Formats what `Path::display` gives for `path`. The text depends on the path
/// alone; it is named `path_display`.
#[verifier::external_body]
fn display_text(path: &PathBuf) -> (text: String)
    ensures
        text@ == path_display(*path),
{
    format!("{}", path.display())
}

/// Why a set of permissions or a profile could not be made.
#[derive(Debug, Clone, PartialEq, Eq)]
pub enum ProfileError {
    /// A path that was named does not exist. Holds the path as it is displayed.
    PathNotFound(String),
}

impl ProfileError {
    /// The path that the error is about, as it is displayed.
    pub open spec fn shown(self) -> Seq<char> {
        match self {
            ProfileError::PathNotFound(path) => path@,
        }
    }

    /// Whether the error is about one of `paths`.
    pub open spec fn names_one_of(self, paths: Seq<PathBuf>) -> bool {
        exists|i: int| 0 <= i < paths.len() && self.shown() == path_display(#[trigger] paths[i])
    }

    /// The path that the error is about, as it is displayed.
    pub fn path(&self) -> (path: &str)
        ensures
            path@ == self.shown(),
    {
        match self {
            ProfileError::PathNotFound(path) => path.as_str(),
        }
    }

    /// The error in words.
    pub fn message(&self) -> (message: String)
        ensures
            message@ == "Path does not exist: "@ + self.shown(),
    {
        match self {
            ProfileError::PathNotFound(path) => {
                let mut message = String::from_str("Path does not exist: ");
                message.append(path.as_str());
                message
            },
        }
    }
}

/// The texts of `paths`, one for one.
pub open spec fn path_texts(paths: Seq<PathBuf>) -> Seq<Seq<char>> {
    Seq::new(paths.len(), |i: int| path_text(paths[i]))
}

/// What becomes of one path, `found` being what the file system said of it: a
/// path that was found is kept as its text, one that was not is refused.
pub fn path_outcome(path: &PathBuf, found: bool) -> (outcome: Result<String, ProfileError>)
    ensures
        found ==> outcome is Ok && outcome->Ok_0@ == path_text(*path),
        !found ==> outcome is Err && outcome->Err_0.shown() == path_display(*path),
{
    if found {
        Ok(lossy_text(path))
    } else {
        Err(ProfileError::PathNotFound(display_text(path)))
    }
}

/// Validates `paths`: asks of each, in order, whether it exists, and gives
/// their texts. The first path that is not found ends the validation with an
/// error about that path; the paths behind it are not looked at.
pub fn validate_paths(paths: Vec<PathBuf>) -> (outcome: Result<Vec<String>, ProfileError>)
    ensures
        match outcome {
            Ok(texts) => texts.deep_view() == path_texts(paths@),
            Err(error) => error.names_one_of(paths@),
        },
        paths.len() == 0 ==> outcome is Ok,
{
    let mut texts: Vec<String> = Vec::new();
    let mut i: usize = 0;
    while i < paths.len()
        invariant
            i <= paths.len(),
            texts.len() == i,
            forall|j: int| 0 <= j < i ==> (#[trigger] texts[j])@ == path_text(paths[j]),
        decreases paths.len() - i,
    {
        let found = path_exists(&paths[i]);
        match path_outcome(&paths[i], found) {
            Ok(text) => {
                texts.push(text);
            },
            Err(error) => {
                return Err(error);
            },
        }
        i += 1;
    }
    Ok(texts)
}

/// What a sandboxed process may do: the paths that it may and may not read and
/// write, whether it may use the network, and the programs that it may and may
/// not run. Paths and programs are matched as they are written; no pattern is
/// expanded.
#[derive(Debug, Clone)]
pub struct Permissions {
    pub allow_read: Vec<String>,
    pub deny_read: Vec<String>,
    pub allow_write: Vec<String>,
    pub deny_write: Vec<String>,
    pub allow_net: bool,
    pub allow_run: Vec<String>,
    pub deny_run: Vec<String>,
}

/// A set of permissions as texts.
pub struct PermissionsView {
    pub allow_read: Seq<Seq<char>>,
    pub deny_read: Seq<Seq<char>>,
    pub allow_write: Seq<Seq<char>>,
    pub deny_write: Seq<Seq<char>>,
    pub allow_net: bool,
    pub allow_run: Seq<Seq<char>>,
    pub deny_run: Seq<Seq<char>>,
}

impl PermissionsView {
    /// The set that allows and denies nothing.
    pub open spec fn empty() -> PermissionsView {
        PermissionsView {
            allow_read: Seq::empty(),
            deny_read: Seq::empty(),
            allow_write: Seq::empty(),
            deny_write: Seq::empty(),
            allow_net: false,
            allow_run: Seq::empty(),
            deny_run: Seq::empty(),
        }
    }
}

impl View for Permissions {
    type V = PermissionsView;

    open spec fn view(&self) -> PermissionsView {
        PermissionsView {
            allow_read: self.allow_read.deep_view(),
            deny_read: self.deny_read.deep_view(),
            allow_write: self.allow_write.deep_view(),
            deny_write: self.deny_write.deep_view(),
            allow_net: self.allow_net,
            allow_run: self.allow_run.deep_view(),
            deny_run: self.deny_run.deep_view(),
        }
    }
}

impl Default for Permissions {
    fn default() -> (permissions: Self)
        ensures
            permissions@ == PermissionsView::empty(),
    {
        Permissions::new()
    }
}

impl Permissions {
    /// The set that allows and denies nothing.
    pub fn new() -> (permissions: Self)
        ensures
            permissions@ == PermissionsView::empty(),
    {
        let permissions = Permissions {
            allow_read: Vec::new(),
            deny_read: Vec::new(),
            allow_write: Vec::new(),
            deny_write: Vec::new(),
            allow_net: false,
            allow_run: Vec::new(),
            deny_run: Vec::new(),
        };
        assert(permissions.allow_read.deep_view() =~= Seq::empty());
        assert(permissions.deny_read.deep_view() =~= Seq::empty());
        assert(permissions.allow_write.deep_view() =~= Seq::empty());
        assert(permissions.deny_write.deep_view() =~= Seq::empty());
        assert(permissions.allow_run.deep_view() =~= Seq::empty());
        assert(permissions.deny_run.deep_view() =~= Seq::empty());
        permissions
    }

    /// Allows reading below `paths`, in place of what was allowed before. Where
    /// one of them does not exist the set stays as it was.
    pub fn allow_read(&mut self, paths: Vec<PathBuf>) -> (outcome: Result<(), ProfileError>)
        ensures
            match outcome {
                Ok(_) => final(self)@ == (PermissionsView {
                    allow_read: path_texts(paths@),
                    ..old(self)@
                }),
                Err(error) => *final(self) == *old(self) && error.names_one_of(paths@),
            },
            paths.len() == 0 ==> outcome is Ok,
    {
        self.allow_read = validate_paths(paths)?;
        Ok(())
    }

    /// Denies reading below `paths`, in place of what was denied before. Where
    /// one of them does not exist the set stays as it was.
    pub fn deny_read(&mut self, paths: Vec<PathBuf>) -> (outcome: Result<(), ProfileError>)
        ensures
            match outcome {
                Ok(_) => final(self)@ == (PermissionsView {
                    deny_read: path_texts(paths@),
                    ..old(self)@
                }),
                Err(error) => *final(self) == *old(self) && error.names_one_of(paths@),
            },
            paths.len() == 0 ==> outcome is Ok,
    {
        self.deny_read = validate_paths(paths)?;
        Ok(())
    }

    /// Allows writing below `paths`, in place of what was allowed before. Where
    /// one of them does not exist the set stays as it was.
    pub fn allow_write(&mut self, paths: Vec<PathBuf>) -> (outcome: Result<(), ProfileError>)
        ensures
            match outcome {
                Ok(_) => final(self)@ == (PermissionsView {
                    allow_write: path_texts(paths@),
                    ..old(self)@
                }),
                Err(error) => *final(self) == *old(self) && error.names_one_of(paths@),
            },
            paths.len() == 0 ==> outcome is Ok,
    {
        self.allow_write = validate_paths(paths)?;
        Ok(())
    }

    /// Denies writing below `paths`, in place of what was denied before. Where
    /// one of them does not exist the set stays as it was.
    pub fn deny_write(&mut self, paths: Vec<PathBuf>) -> (outcome: Result<(), ProfileError>)
        ensures
            match outcome {
                Ok(_) => final(self)@ == (PermissionsView {
                    deny_write: path_texts(paths@),
                    ..old(self)@
                }),
                Err(error) => *final(self) == *old(self) && error.names_one_of(paths@),
            },
            paths.len() == 0 ==> outcome is Ok,
    {
        self.deny_write = validate_paths(paths)?;
        Ok(())
    }

    /// Allows the use of the network.
    pub fn allow_net(&mut self)
        ensures
            final(self)@ == (PermissionsView { allow_net: true, ..old(self)@ }),
    {
        self.allow_net = true;
    }

    /// Allows running `programs`, in place of what was allowed before. The
    /// names are kept as they are given.
    pub fn allow_run(&mut self, programs: Vec<String>)
        ensures
            final(self)@ == (PermissionsView { allow_run: programs.deep_view(), ..old(self)@ }),
    {
        self.allow_run = programs;
    }

    /// Denies running `programs`, in place of what was denied before. The names
    /// are kept as they are given.
    pub fn deny_run(&mut self, programs: Vec<String>)
        ensures
            final(self)@ == (PermissionsView { deny_run: programs.deep_view(), ..old(self)@ }),
    {
        self.deny_run = programs;
    }
}

} // verus!
