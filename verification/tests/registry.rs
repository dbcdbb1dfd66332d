use clockhand::errors::ErrorKind;
use clockhand::registry::{
    project_root, Descriptor, DescriptorFile, LoadFailure, Project, ProjectConfig, ProjectRegistry,
};

fn project(id: i32, name: &str, root: &str) -> Project {
    Project { harvest_project_id: id, root: root.to_string(), name: name.to_string() }
}

fn parsed(path: &str, id: i32, name: &str) -> DescriptorFile {
    DescriptorFile {
        path: path.to_string(),
        content: Descriptor::Parsed(ProjectConfig { harvest_project_id: id, name: name.to_string() }),
    }
}

#[test]
fn root_of_descriptor_under_dot_config_is_the_directory_above() {
    assert_eq!(project_root("/x/project/.config/clockhand.json"), Ok("/x/project".to_string()));
}

#[test]
fn root_of_plain_descriptor_is_its_directory() {
    assert_eq!(project_root("/x/project/clockhand.json"), Ok("/x/project".to_string()));
}

#[test]
fn root_of_relative_descriptors() {
    assert_eq!(project_root("project/clockhand.json"), Ok("project".to_string()));
    assert_eq!(project_root(".config/clockhand.json"), Ok("".to_string()));
    assert_eq!(project_root("/.config/clockhand.json"), Ok("/".to_string()));
    assert_eq!(project_root("a/.config/b/clockhand.json"), Ok("a/.config/b".to_string()));
}

#[test]
fn root_of_descriptor_under_the_root_directory_is_the_root_directory() {
    assert_eq!(project_root("/clockhand.json"), Ok("/".to_string()));
    assert_eq!(project_root("//clockhand.json"), Ok("/".to_string()));
    assert_eq!(project_root("/./clockhand.json"), Ok("/".to_string()));
    let config = ProjectConfig { harvest_project_id: 42, name: "Alpha".to_string() };
    let made = Project::from_config("/clockhand.json", config).unwrap();
    assert_eq!(made.root, "/");
    assert_eq!(made.harvest_project_id, 42);
    assert_eq!(made.name, "Alpha");
    assert!(made.contains_file("/any/where/file".to_string()));
}

#[test]
fn root_is_missing_without_a_directory() {
    assert_eq!(project_root("clockhand.json"), Err(ErrorKind::ProjectRootMissing));
    assert_eq!(project_root("./clockhand.json"), Err(ErrorKind::ProjectRootMissing));
    assert_eq!(project_root("../clockhand.json"), Err(ErrorKind::ProjectRootMissing));
    assert_eq!(project_root("/../clockhand.json"), Err(ErrorKind::ProjectRootMissing));
    assert_eq!(project_root("/"), Err(ErrorKind::ProjectRootMissing));
    assert_eq!(project_root(""), Err(ErrorKind::ProjectRootMissing));
}

#[test]
fn from_config_keeps_id_and_name() {
    let config = ProjectConfig { harvest_project_id: 42, name: "Alpha".to_string() };
    let made = Project::from_config("/p/alpha/.config/clockhand.json", config).unwrap();
    assert_eq!(made.harvest_project_id, 42);
    assert_eq!(made.name, "Alpha");
    assert_eq!(made.root, "/p/alpha");
}

#[test]
fn from_config_fails_without_a_root() {
    let config = ProjectConfig { harvest_project_id: 42, name: "Alpha".to_string() };
    assert_eq!(
        Project::from_config("clockhand.json", config).err(),
        Some(ErrorKind::ProjectRootMissing)
    );
}

#[test]
fn contains_file_goes_by_components() {
    let alpha = project(42, "Alpha", "/a/b");
    assert!(alpha.contains_file("/a/b/file.txt".to_string()));
    assert!(alpha.contains_file("/a/b".to_string()));
    assert!(!alpha.contains_file("/a/bc/file.txt".to_string()));
    assert!(!alpha.contains_file("/a".to_string()));
}

#[test]
fn load_keeps_the_order_of_the_descriptors() {
    let files = vec![
        parsed("/p/alpha/clockhand.json", 42, "Alpha"),
        parsed("/p/beta/.config/clockhand.json", 99, "Beta"),
    ];
    let registry = ProjectRegistry::load(&files).unwrap();
    assert_eq!(registry.projects.len(), 2);
    assert_eq!(registry.projects[0].name, "Alpha");
    assert_eq!(registry.projects[0].root, "/p/alpha");
    assert_eq!(registry.projects[0].harvest_project_id, 42);
    assert_eq!(registry.projects[1].name, "Beta");
    assert_eq!(registry.projects[1].root, "/p/beta");
    assert_eq!(registry.projects[1].harvest_project_id, 99);
}

#[test]
fn load_of_nothing_is_an_empty_registry() {
    let registry = ProjectRegistry::load(&Vec::new()).unwrap();
    assert!(registry.projects.is_empty());
}

#[test]
fn load_fails_on_a_missing_descriptor() {
    let files = vec![
        parsed("/p/alpha/clockhand.json", 42, "Alpha"),
        DescriptorFile { path: "/p/beta/clockhand.json".to_string(), content: Descriptor::Missing },
        DescriptorFile { path: "/p/gamma/clockhand.json".to_string(), content: Descriptor::Malformed },
    ];
    assert_eq!(
        ProjectRegistry::load(&files).err(),
        Some(LoadFailure { index: 1, kind: ErrorKind::ConfigNotFound })
    );
}

#[test]
fn load_fails_on_a_malformed_descriptor() {
    let files = vec![
        DescriptorFile { path: "/p/gamma/clockhand.json".to_string(), content: Descriptor::Malformed },
        DescriptorFile { path: "/p/beta/clockhand.json".to_string(), content: Descriptor::Missing },
    ];
    assert_eq!(
        ProjectRegistry::load(&files).err(),
        Some(LoadFailure { index: 0, kind: ErrorKind::ConfigMalformed })
    );
}

#[test]
fn load_takes_a_descriptor_under_the_root_directory() {
    let files = vec![parsed("/clockhand.json", 42, "Alpha")];
    let registry = ProjectRegistry::load(&files).unwrap();
    assert_eq!(registry.projects.len(), 1);
    assert_eq!(registry.projects[0].root, "/");
    assert_eq!(registry.position("/p/alpha/file"), Some(0));
}

#[test]
fn load_fails_on_a_descriptor_without_a_root() {
    let files = vec![parsed("/p/alpha/clockhand.json", 42, "Alpha"), parsed("clockhand.json", 7, "Nowhere")];
    assert_eq!(
        ProjectRegistry::load(&files).err(),
        Some(LoadFailure { index: 1, kind: ErrorKind::ProjectRootMissing })
    );
}

#[test]
fn resolve_finds_the_owning_project() {
    let mut registry = ProjectRegistry::new();
    registry.register(project(42, "Alpha", "/p/alpha"));
    registry.register(project(99, "Beta", "/p/beta"));
    assert_eq!(registry.position("/p/beta/src/lib.ext"), Some(1));
    assert_eq!(registry.resolve("/p/alpha/src/main.ext").map(|p| p.name.as_str()), Some("Alpha"));
    assert_eq!(registry.resolve("/p/beta/notes").map(|p| p.harvest_project_id), Some(99));
}

#[test]
fn resolve_finds_nothing_outside_all_roots() {
    let mut registry = ProjectRegistry::new();
    registry.register(project(42, "Alpha", "/p/alpha"));
    assert_eq!(registry.position("/p/alphabet/file"), None);
    assert!(registry.resolve("/q/alpha/file").is_none());
    assert!(ProjectRegistry::new().resolve("/p/alpha/file").is_none());
}

#[test]
fn resolve_prefers_the_project_registered_first() {
    let mut registry = ProjectRegistry::new();
    registry.register(project(1, "Outer", "/p"));
    registry.register(project(2, "Inner", "/p/inner"));
    assert_eq!(registry.position("/p/inner/file"), Some(0));
    let mut reversed = ProjectRegistry::new();
    reversed.register(project(2, "Inner", "/p/inner"));
    reversed.register(project(1, "Outer", "/p"));
    assert_eq!(reversed.position("/p/inner/file"), Some(0));
    assert_eq!(reversed.position("/p/other/file"), Some(1));
}
