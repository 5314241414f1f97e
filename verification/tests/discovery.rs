use package_registry_manager::discovery::{
    github_coordinates, is_ignored_directory, is_manifest, is_workflow_file, parse_cargo,
    parse_composer, parse_dotnet, parse_github_url, parse_go, parse_gradle, parse_manifest,
    parse_maven, parse_npm, parse_pyproject, parse_setup_py, relative_path, release_workflow,
    InspectError, ManifestFile, WorkflowFile,
};
use package_registry_manager::{inspect_repository, Registry};

fn owned(parts: &[&str]) -> Vec<String> {
    parts.iter().map(|p| (*p).to_owned()).collect()
}

#[test]
fn npm_manifests_name_private_packages_as_unpublishable() {
    let public = parse_npm("{\"name\": \"left-pad\", \"version\": \"1.0.0\"}", "package.json")
        .unwrap()
        .unwrap();
    assert_eq!(public.registry, Registry::Npm);
    assert_eq!(public.name, "left-pad");
    assert_eq!(public.version.as_deref(), Some("1.0.0"));
    assert!(public.publishable);
    let private = parse_npm("{\"name\": \"x\", \"private\": true}", "a/package.json").unwrap().unwrap();
    assert!(!private.publishable);
    assert_eq!(private.problems, owned(&["package.json marks this package as private"]));
    assert_eq!(parse_npm("{\"version\": \"1.0.0\"}", "package.json").unwrap(), None);
    assert_eq!(
        parse_npm("{not json", "web/package.json").unwrap_err(),
        InspectError::InvalidJson { manifest: "web/package.json".to_owned() }
    );
}

#[test]
fn cargo_manifests_honor_publish_false() {
    let open = parse_cargo("[package]\nname = \"tool\"\nversion = \"0.3.0\"\n", "Cargo.toml")
        .unwrap()
        .unwrap();
    assert_eq!(open.registry, Registry::CratesIo);
    assert_eq!(open.version.as_deref(), Some("0.3.0"));
    assert!(open.publishable);
    let closed = parse_cargo("[package]\nname = \"tool\"\npublish = false\n", "Cargo.toml")
        .unwrap()
        .unwrap();
    assert!(!closed.publishable);
    assert_eq!(closed.problems, owned(&["Cargo.toml disables publishing"]));
    let listed = parse_cargo("[package]\nname = \"tool\"\npublish = [\"internal\"]\n", "Cargo.toml")
        .unwrap()
        .unwrap();
    assert!(listed.publishable);
    assert_eq!(parse_cargo("[workspace]\nmembers = []\n", "Cargo.toml").unwrap(), None);
    assert_eq!(
        parse_cargo("[package", "Cargo.toml").unwrap_err().message(),
        "invalid TOML in Cargo.toml"
    );
}

#[test]
fn python_projects_are_read_from_project_or_poetry_tables() {
    let pep = parse_pyproject("[project]\nname = \"pkg\"\nversion = \"1.0\"\n", "pyproject.toml")
        .unwrap()
        .unwrap();
    assert_eq!(pep.registry, Registry::PyPi);
    assert_eq!(pep.name, "pkg");
    let poetry = parse_pyproject("[tool.poetry]\nname = \"poem\"\n", "pyproject.toml").unwrap().unwrap();
    assert_eq!(poetry.name, "poem");
    assert_eq!(poetry.version, None);
    assert_eq!(parse_pyproject("[build-system]\nrequires = []\n", "pyproject.toml").unwrap(), None);
    let setup = parse_setup_py("setup(\n    name='legacy',\n    version=\"2.0\",\n)\n", "setup.py").unwrap();
    assert_eq!(setup.name, "legacy");
    assert_eq!(setup.version.as_deref(), Some("2.0"));
    let unnamed = parse_setup_py("setup()\n", "setup.py").unwrap();
    assert_eq!(unnamed.name, "unknown-python-package");
}

#[test]
fn go_dotnet_maven_gradle_and_composer_manifests_are_read() {
    let go = parse_go("// comment\n  module   example.com/m  \n", "go.mod");
    assert_eq!(go.registry, Registry::GoModules);
    assert_eq!(go.name, "example.com/m");
    assert_eq!(parse_go("go 1.21\n", "go.mod").name, "unknown-go-module");

    let dotnet = parse_dotnet("<Project><AssemblyName>Lib</AssemblyName><PackageVersion> 3.1 </PackageVersion></Project>", "src/Lib.Core.csproj").unwrap();
    assert_eq!(dotnet.registry, Registry::NuGet);
    assert_eq!(dotnet.name, "Lib");
    assert_eq!(dotnet.version.as_deref(), Some("3.1"));
    let bare = parse_dotnet("<Project></Project>", "src/Lib.Core.csproj").unwrap();
    assert_eq!(bare.name, "Lib.Core");

    let maven = parse_maven("<project><artifactId>core</artifactId></project>", "pom.xml").unwrap();
    assert_eq!(maven.registry, Registry::MavenCentral);
    assert_eq!(maven.name, "core");
    let unknown = parse_maven("<project/>", "pom.xml").unwrap();
    assert_eq!(unknown.name, "unknown-maven-artifact");

    let gradle = parse_gradle("group = 'org.example'\nversion = '1.4'\nrootProject.name = 'lib'\n", "build.gradle").unwrap();
    assert_eq!(gradle.name, "org.example:lib");
    assert_eq!(gradle.version.as_deref(), Some("1.4"));
    assert_eq!(parse_gradle("plugins {}\n", "build.gradle").unwrap().name, "gradle-project");

    let composer = parse_composer("{\"name\": \"vendor/pkg\"}", "composer.json").unwrap().unwrap();
    assert_eq!(composer.registry, Registry::Packagist);
    assert_eq!(parse_composer("{}", "composer.json").unwrap(), None);
}

#[test]
fn manifests_are_recognized_by_file_name() {
    for name in [
        "package.json", "Cargo.toml", "pyproject.toml", "setup.py", "go.mod", "pom.xml",
        "build.gradle", "build.gradle.kts", "composer.json", "App.csproj", "App.fsproj", "App.vbproj",
    ] {
        assert!(is_manifest(name), "{name}");
    }
    for name in ["README.md", "package-lock.json", "Cargo.lock", "csproj", "App.csproj.user"] {
        assert!(!is_manifest(name), "{name}");
    }
    assert_eq!(parse_manifest("docs/README.md", "text").unwrap(), None);
    let package = parse_manifest("a/b/Thing.fsproj", "<Project/>").unwrap().unwrap();
    assert_eq!(package.name, "Thing");
    assert_eq!(package.manifest, "a/b/Thing.fsproj");
}

#[test]
fn vendored_and_generated_directories_are_ignored() {
    for name in [".git", ".package-registry-manager", ".venv", "node_modules", "target", "vendor"] {
        assert!(is_ignored_directory(name));
    }
    assert!(!is_ignored_directory("src"));
    assert!(!is_ignored_directory("Vendor"));
}

#[test]
fn github_remotes_are_read_in_every_common_form() {
    let both = |owner: &str, repo: &str| Some((Some(owner.to_owned()), Some(repo.to_owned())));
    assert_eq!(parse_github_url("git@github.com:acme/polyglot.git"), both("acme", "polyglot"));
    assert_eq!(parse_github_url("https://github.com/acme/polyglot"), both("acme", "polyglot"));
    assert_eq!(parse_github_url("git+https://github.com/acme/polyglot.git"), both("acme", "polyglot"));
    assert_eq!(parse_github_url("ssh://git@github.com/acme/polyglot.git"), both("acme", "polyglot"));
    assert_eq!(parse_github_url("https://github.com/acme"), Some((Some("acme".to_owned()), None)));
    assert_eq!(parse_github_url("https://gitlab.com/acme/polyglot"), None);
}

#[test]
fn coordinates_fall_back_to_manifest_repository_fields() {
    let manifests = vec![
        ManifestFile { path: "Cargo.toml".to_owned(), contents: "[package]\nname = \"x\"\nrepository = \"https://github.com/owner/crate-repo\"\n".to_owned() },
        ManifestFile { path: "package.json".to_owned(), contents: "{\"repository\": {\"url\": \"git+https://github.com/owner/js-repo.git\"}}".to_owned() },
    ];
    assert_eq!(
        github_coordinates(None, &manifests).unwrap(),
        (Some("owner".to_owned()), Some("crate-repo".to_owned()))
    );
    let config = "[remote \"origin\"]\n\turl = https://example.com/elsewhere.git\n";
    assert_eq!(
        github_coordinates(Some(config), &manifests[1..].to_vec()).unwrap(),
        (Some("owner".to_owned()), Some("js-repo".to_owned()))
    );
    assert_eq!(github_coordinates(None, &vec![]).unwrap(), (None, None));
}

#[test]
fn the_release_workflow_prefers_one_that_publishes_to_npm() {
    let files = |pairs: &[(&str, &str)]| {
        pairs
            .iter()
            .map(|(n, c)| WorkflowFile { name: (*n).to_owned(), contents: (*c).to_owned() })
            .collect::<Vec<_>>()
    };
    assert_eq!(
        release_workflow(files(&[("release.yml", "cargo publish"), ("deploy.yaml", "npm stage publish")])),
        Some("deploy.yaml".to_owned())
    );
    assert_eq!(
        release_workflow(files(&[("z-release.yml", "x"), ("a-release.yml", "y")])),
        Some("a-release.yml".to_owned())
    );
    assert_eq!(release_workflow(files(&[("release.txt", "npm publish")])), None);
    assert!(is_workflow_file("ci.yaml"));
    assert!(!is_workflow_file("ci.yml.bak"));
}

#[test]
fn a_setup_py_beside_a_pyproject_is_not_read_twice() {
    let inspection = inspect_repository(
        "/r".to_owned(),
        vec![
            ManifestFile { path: "py/setup.py".to_owned(), contents: "setup(name='old')".to_owned() },
            ManifestFile { path: "py/pyproject.toml".to_owned(), contents: "[project]\nname = \"new\"\n".to_owned() },
            ManifestFile { path: "other/setup.py".to_owned(), contents: "setup(name='kept')".to_owned() },
        ],
        None,
        vec![],
    )
    .unwrap();
    let names: Vec<&str> = inspection.packages.iter().map(|p| p.name.as_str()).collect();
    assert_eq!(names, vec!["kept", "new"]);
    assert_eq!(inspection.repository.github_owner, None);
    assert_eq!(inspection.repository.release_workflow, None);
}

#[test]
fn an_unreadable_manifest_ends_the_inspection() {
    let error = inspect_repository(
        "/r".to_owned(),
        vec![ManifestFile { path: "composer.json".to_owned(), contents: "[".to_owned() }],
        None,
        vec![],
    )
    .unwrap_err();
    assert_eq!(error.message(), "invalid JSON in composer.json");
}

#[test]
fn paths_are_written_relative_to_the_root() {
    assert_eq!(relative_path(&owned(&["/", "repo", "rust", "Cargo.toml"]), &owned(&["/", "repo"])), "rust/Cargo.toml");
    assert_eq!(relative_path(&owned(&["other", "x"]), &owned(&["/", "repo"])), "other/x");
}
