//! The watched projects, and which of them owns a changed file.

use vstd::pervasive::unreached;
use vstd::prelude::*;
use crate::errors::ErrorKind;
use crate::path_laws::{
    lemma_inside_is_transitive, lemma_inside_parent, lemma_parent_under_root,
    lemma_separator_is_root_dir,
};
use crate::paths::{
    file_name, is_named, is_root_dir, parent, spec_file_name, spec_is_root_dir, spec_parent,
    spec_starts_with, starts_with, SEPARATOR,
};

verus! {

/// What a project descriptor file declares.
#[derive(Debug)]
pub struct ProjectConfig {
    /// The project's identifier in the time-tracking service.
    pub harvest_project_id: i32,
    /// The project's name, as notifications show it.
    pub name: String,
}

/// A watched project.
#[derive(Debug)]
pub struct Project {
    /// The project's identifier in the time-tracking service.
    pub harvest_project_id: i32,
    /// The directory whose subtree belongs to the project.
    pub root: String,
    /// The project's name, as notifications show it.
    pub name: String,
}

/// The name of a directory that holds a project's descriptor without being
/// the project's root: the root is the directory above it.
pub const CONFIG_DIR_NAME: &'static str = ".config";

/// The root of the project whose descriptor lies at `descriptor`: the
/// directory that holds the descriptor, or that directory's parent when the
/// directory is named `.config`. The directory is the root directory or has
/// a name; `None` when the descriptor's path gives no such directory.
pub open spec fn spec_project_root(descriptor: Seq<char>) -> Option<Seq<char>> {
    match spec_parent(descriptor) {
        None => None,
        Some(dir) => match spec_file_name(dir) {
            None => if spec_is_root_dir(dir) {
                Some(dir)
            } else {
                None
            },
            Some(name) => if name == CONFIG_DIR_NAME@ {
                spec_parent(dir)
            } else {
                Some(dir)
            },
        },
    }
}

/// The root of the project whose descriptor lies at `descriptor`.
pub fn project_root(descriptor: &str) -> (root: Result<String, ErrorKind>)
    ensures
        match root {
            Ok(dir) => spec_project_root(descriptor@) == Some(dir@),
            Err(kind) => spec_project_root(descriptor@) is None && kind
                == ErrorKind::ProjectRootMissing,
        },
{
    let dir = match parent(descriptor) {
        Some(dir) => dir,
        None => { return Err(ErrorKind::ProjectRootMissing); },
    };
    let name = match file_name(dir.as_str()) {
        Some(name) => name,
        None => {
            if is_root_dir(dir.as_str()) {
                return Ok(dir);
            }
            return Err(ErrorKind::ProjectRootMissing);
        },
    };
    let config_dir = CONFIG_DIR_NAME.to_owned();
    if name == config_dir {
        match parent(dir.as_str()) {
            Some(above) => Ok(above),
            // A directory with a name has a parent.
            None => unreached(),
        }
    } else {
        Ok(dir)
    }
}

impl Project {
    /// Whether `path` lies at or under the project's root, component by
    /// component.
    pub open spec fn owns(self, path: Seq<char>) -> bool {
        spec_starts_with(path, self.root@)
    }

    /// Whether `config`, found at `descriptor`, describes this project.
    pub open spec fn described_by(self, descriptor: Seq<char>, config: ProjectConfig) -> bool {
        &&& self.harvest_project_id == config.harvest_project_id
        &&& self.name@ == config.name@
        &&& spec_project_root(descriptor) == Some(self.root@)
    }

    /// The project that `config`, found at `descriptor`, describes.
    pub fn from_config(descriptor: &str, config: ProjectConfig) -> (project: Result<
        Project,
        ErrorKind,
    >)
        ensures
            match project {
                Ok(p) => p.described_by(descriptor@, config),
                Err(kind) => spec_project_root(descriptor@) is None && kind
                    == ErrorKind::ProjectRootMissing,
            },
    {
        match project_root(descriptor) {
            Ok(root) => Ok(
                Project { harvest_project_id: config.harvest_project_id, root, name: config.name },
            ),
            Err(kind) => Err(kind),
        }
    }

    /// Whether the file at `path` belongs to this project.
    pub fn contains_file(&self, path: String) -> (inside: bool)
        ensures
            inside == self.owns(path@),
    {
        starts_with(path.as_str(), self.root.as_str())
    }
}

/// What reading one project descriptor gave.
#[derive(Debug)]
pub enum Descriptor {
    /// There is no file at the descriptor's path.
    Missing,
    /// The file does not hold a project descriptor.
    Malformed,
    /// The file declares a project.
    Parsed(ProjectConfig),
}

/// A project descriptor as it was read: where it lies and what it holds.
#[derive(Debug)]
pub struct DescriptorFile {
    /// The path that the user gave for the descriptor.
    pub path: String,
    /// What reading the file at that path gave.
    pub content: Descriptor,
}

impl DescriptorFile {
    /// Why no project can be made of this descriptor, if none can.
    pub open spec fn load_error(self) -> Option<ErrorKind> {
        match self.content {
            Descriptor::Missing => Some(ErrorKind::ConfigNotFound),
            Descriptor::Malformed => Some(ErrorKind::ConfigMalformed),
            Descriptor::Parsed(_) => if spec_project_root(self.path@) is None {
                Some(ErrorKind::ProjectRootMissing)
            } else {
                None
            },
        }
    }

    /// Whether `project` is the project that this descriptor declares.
    pub open spec fn declares(self, project: Project) -> bool {
        match self.content {
            Descriptor::Parsed(config) => project.described_by(self.path@, config),
            _ => false,
        }
    }

    /// The project that this descriptor declares, or why there is none.
    pub fn to_project(&self) -> (project: Result<Project, ErrorKind>)
        ensures
            match project {
                Ok(p) => self.load_error() is None && self.declares(p),
                Err(kind) => self.load_error() == Some(kind),
            },
    {
        match &self.content {
            Descriptor::Missing => Err(ErrorKind::ConfigNotFound),
            Descriptor::Malformed => Err(ErrorKind::ConfigMalformed),
            Descriptor::Parsed(config) => {
                match project_root(self.path.as_str()) {
                    Ok(root) => Ok(
                        Project {
                            harvest_project_id: config.harvest_project_id,
                            root,
                            name: config.name.clone(),
                        },
                    ),
                    Err(kind) => Err(kind),
                }
            },
        }
    }
}

/// Why the projects could not be loaded: the first descriptor that failed,
/// by its position among those given, and how it failed.
#[derive(Clone, Copy, Debug, PartialEq, Eq, Structural)]
pub struct LoadFailure {
    /// The position of the descriptor that failed.
    pub index: usize,
    /// How it failed.
    pub kind: ErrorKind,
}

/// The watched projects, in the order of their registration.
#[derive(Debug)]
pub struct ProjectRegistry {
    /// The projects, first registered first.
    pub projects: Vec<Project>,
}

/// Whether `index` is the position of the first of `projects` that owns
/// `path`.
pub open spec fn is_first_owner(projects: Seq<Project>, path: Seq<char>, index: int) -> bool {
    &&& 0 <= index < projects.len()
    &&& projects[index].owns(path)
    &&& forall|j: int| 0 <= j < index ==> !(#[trigger] projects[j]).owns(path)
}

/// Whether none of `projects` owns `path`.
pub open spec fn is_unowned(projects: Seq<Project>, path: Seq<char>) -> bool {
    forall|j: int| 0 <= j < projects.len() ==> !(#[trigger] projects[j]).owns(path)
}

impl ProjectRegistry {
    /// A registry without projects.
    pub fn new() -> (registry: ProjectRegistry)
        ensures
            registry.projects@.len() == 0,
    {
        ProjectRegistry { projects: Vec::new() }
    }

    /// Registers `project` behind the projects registered so far.
    pub fn register(&mut self, project: Project)
        ensures
            final(self).projects@ == old(self).projects@.push(project),
    {
        self.projects.push(project);
    }

    /// The projects that `files` declare, in their order; or the first
    /// descriptor of which no project can be made. Nothing is loaded unless
    /// every descriptor declares a project.
    pub fn load(files: &Vec<DescriptorFile>) -> (loaded: Result<ProjectRegistry, LoadFailure>)
        ensures
            match loaded {
                Ok(registry) => {
                    &&& registry.projects@.len() == files@.len()
                    &&& forall|i: int|
                        0 <= i < files@.len() ==> (#[trigger] files@[i]).load_error() is None
                            && files@[i].declares(registry.projects@[i])
                },
                Err(failure) => {
                    &&& failure.index < files@.len()
                    &&& files@[failure.index as int].load_error() == Some(failure.kind)
                    &&& forall|i: int|
                        0 <= i < failure.index ==> (#[trigger] files@[i]).load_error() is None
                },
            },
    {
        let mut projects: Vec<Project> = Vec::new();
        let mut i: usize = 0;
        while i < files.len()
            invariant
                i <= files.len(),
                projects@.len() == i,
                forall|j: int|
                    0 <= j < i ==> (#[trigger] files@[j]).load_error() is None && files@[j].declares(
                        projects@[j],
                    ),
            decreases files.len() - i,
        {
            match files[i].to_project() {
                Ok(project) => {
                    projects.push(project);
                },
                Err(kind) => {
                    return Err(LoadFailure { index: i, kind });
                },
            }
            i += 1;
        }
        Ok(ProjectRegistry { projects })
    }

    /// The position of the first registered project that owns `path`, if
    /// any project does.
    pub fn position(&self, path: &str) -> (found: Option<usize>)
        ensures
            match found {
                Some(index) => is_first_owner(self.projects@, path@, index as int),
                None => is_unowned(self.projects@, path@),
            },
    {
        let mut i: usize = 0;
        while i < self.projects.len()
            invariant
                i <= self.projects.len(),
                forall|j: int| 0 <= j < i ==> !(#[trigger] self.projects@[j]).owns(path@),
            decreases self.projects.len() - i,
        {
            if starts_with(path, self.projects[i].root.as_str()) {
                return Some(i);
            }
            i += 1;
        }
        None
    }

    /// The first registered project that owns `path`, if any project does.
    pub fn resolve(&self, path: &str) -> (found: Option<&Project>)
        ensures
            match found {
                Some(project) => exists|index: int|
                    is_first_owner(self.projects@, path@, index) && *project
                        == self.projects@[index],
                None => is_unowned(self.projects@, path@),
            },
    {
        match self.position(path) {
            Some(index) => Some(&self.projects[index]),
            None => None,
        }
    }
}

/// A descriptor lies inside the root of the project that it declares.
pub proof fn lemma_root_holds_descriptor(descriptor: Seq<char>)
    ensures
        spec_project_root(descriptor) matches Some(root) ==> spec_starts_with(descriptor, root),
{
    if let Some(dir) = spec_parent(descriptor) {
        lemma_inside_parent(descriptor);
        if let Some(above) = spec_parent(dir) {
            lemma_inside_parent(dir);
            lemma_inside_is_transitive(descriptor, dir, above);
        }
    }
}

/// A project that was loaded owns its descriptor: a change of the
/// descriptor is a change in the project, or in one registered before it.
pub proof fn lemma_loaded_project_owns_descriptor(file: DescriptorFile, project: Project)
    requires
        file.declares(project),
    ensures
        project.owns(file.path@),
{
    lemma_root_holds_descriptor(file.path@);
}

/// A descriptor right under the root directory declares a project whose
/// root is the root directory.
pub proof fn lemma_root_directory_holds_projects(name: Seq<char>)
    requires
        is_named(name),
        !name.contains(SEPARATOR),
    ensures
        spec_project_root(seq![SEPARATOR] + name) == Some(seq![SEPARATOR]),
{
    lemma_parent_under_root(name);
    lemma_separator_is_root_dir();
}

} // verus!
