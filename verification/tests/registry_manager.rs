use package_registry_manager::discovery::{is_ignored_directory, is_manifest, ManifestFile, WorkflowFile};
use package_registry_manager::model::StepKind;
use package_registry_manager::plan::build_plan;
use package_registry_manager::browser::prefill_script;
use package_registry_manager::{build_plans, build_plans_for, inspect_repository, Inspection, Registry};

fn manifest(path: &str, contents: &str) -> ManifestFile {
    ManifestFile { path: path.to_owned(), contents: contents.to_owned() }
}

fn workflow(name: &str, contents: &str) -> WorkflowFile {
    WorkflowFile { name: name.to_owned(), contents: contents.to_owned() }
}

fn fixture() -> Inspection {
    inspect_listing(fixture_manifests(), fixture_workflows())
}

fn inspect_listing(manifests: Vec<ManifestFile>, workflows: Vec<WorkflowFile>) -> Inspection {
    inspect_repository(
        "/work/polyglot".to_owned(),
        manifests,
        Some("[remote \"origin\"]\n\turl = git@github.com:acme/polyglot.git\n".to_owned()),
        workflows,
    )
    .expect("inspect fixture")
}

fn fixture_manifests() -> Vec<ManifestFile> {
    vec![
        manifest("php/composer.json", "{\"name\": \"acme/widgets\", \"version\": \"1.0.0\"}"),
        manifest(
            "package.json",
            "{\"name\": \"@acme/widgets\", \"version\": \"1.2.3\", \"repository\": \"github:acme/polyglot\"}",
        ),
        manifest("rust/Cargo.toml", "[package]\nname = \"acme-widgets\"\nversion = \"0.1.0\"\n"),
        manifest("python/pyproject.toml", "[project]\nname = \"acme-widgets\"\nversion = \"0.2.0\"\n"),
        manifest("go/go.mod", "module github.com/acme/polyglot/go\n\ngo 1.22\n"),
        manifest(
            "dotnet/Acme.Widgets.csproj",
            "<Project>\n  <PropertyGroup>\n    <PackageId>Acme.Widgets</PackageId>\n    <Version>1.0.0</Version>\n  </PropertyGroup>\n</Project>\n",
        ),
        manifest(
            "java/pom.xml",
            "<project>\n  <groupId>com.acme</groupId>\n  <artifactId>widgets</artifactId>\n  <version>1.0.0</version>\n</project>\n",
        ),
    ]
}

fn fixture_workflows() -> Vec<WorkflowFile> {
    vec![
        workflow("publish.yml", "jobs:\n  publish:\n    steps:\n      - run: npm publish --provenance\n"),
        workflow("ci.yml", "jobs:\n  test:\n    steps:\n      - run: cargo test\n"),
        workflow("notes.md", "npm publish"),
    ]
}

#[test]
fn discovers_every_maintained_registry_and_repository_metadata() {
    let inspection = fixture();
    let registries: Vec<Registry> = inspection.packages.iter().map(|p| p.registry).collect();
    assert_eq!(registries, Registry::ALL.to_vec());
    assert_eq!(inspection.packages.len(), 7);
    assert_eq!(inspection.schema_version, 1);
    assert_eq!(inspection.repository.root, "/work/polyglot");
    assert_eq!(inspection.repository.github_owner.as_deref(), Some("acme"));
    assert_eq!(inspection.repository.github_repository.as_deref(), Some("polyglot"));
    assert_eq!(inspection.repository.release_workflow.as_deref(), Some("publish.yml"));
    let names: Vec<&str> = inspection.packages.iter().map(|p| p.name.as_str()).collect();
    assert_eq!(
        names,
        vec![
            "@acme/widgets",
            "acme-widgets",
            "acme-widgets",
            "github.com/acme/polyglot/go",
            "Acme.Widgets",
            "com.acme:widgets",
            "acme/widgets",
        ]
    );
    let manifests: Vec<&str> = inspection.packages.iter().map(|p| p.manifest.as_str()).collect();
    assert_eq!(
        manifests,
        vec![
            "package.json",
            "rust/Cargo.toml",
            "python/pyproject.toml",
            "go/go.mod",
            "dotnet/Acme.Widgets.csproj",
            "java/pom.xml",
            "php/composer.json",
        ]
    );
    assert_eq!(inspection.packages[0].version.as_deref(), Some("1.2.3"));
    assert_eq!(inspection.packages[3].version, None);
    assert!(inspection.packages.iter().all(|p| p.publishable && p.problems.is_empty()));
}

#[test]
fn npm_plan_prefills_trusted_publisher_from_repository() {
    let inspection = fixture();
    let plans = build_plans(&inspection);
    let npm = plans.iter().find(|plan| plan.registry == Registry::Npm).expect("npm plan");
    let publisher = npm.trusted_publisher.as_ref().expect("publisher prefill");

    assert_eq!(publisher.provider, "github-actions");
    assert_eq!(publisher.organization, "acme");
    assert_eq!(publisher.repository, "polyglot");
    assert_eq!(publisher.workflow, "publish.yml");
    assert_eq!(publisher.environment, None);
    assert!(npm
        .steps
        .iter()
        .any(|step| step.url.as_deref()
            == Some("https://www.npmjs.com/package/@acme%2Fwidgets/access")));

    let config = "{\"provider\":\"github-actions\",\"organization\":\"acme\",\"repository\":\"polyglot\",\"workflow\":\"publish.yml\"}";
    let script = prefill_script(config, false);
    assert!(script.contains("publish.yml"));
    assert!(script.contains("shouldSubmit = false"));
    assert!(script.contains(&format!("const config = {config};")));
    assert!(prefill_script(config, true).contains("shouldSubmit = true"));
}

#[test]
fn setup_plan_never_contains_a_publish_command() {
    let inspection = fixture();
    for plan in build_plans(&inspection) {
        for command in plan.steps.iter().filter_map(|step| step.command.as_ref()) {
            let rendered = format!("{} {}", command.program, command.args.join(" "));
            assert!(
                rendered != "npm publish" && rendered != "cargo publish",
                "setup must not upload an artifact: {rendered}"
            );
        }
    }
}

#[test]
fn every_plan_checks_first_and_then_points_at_the_registry() {
    let inspection = fixture();
    let plans = build_plans(&inspection);
    assert_eq!(plans.len(), 7);
    for plan in &plans {
        assert_eq!(plan.schema_version, 1);
        assert_eq!(plan.steps.len(), 2);
        assert_eq!(plan.steps[0].kind, StepKind::Check);
        assert!(plan.steps[0].command.is_some());
        assert!(plan.steps[1].url.is_some());
        assert_eq!(plan.repository, inspection.repository);
        assert_eq!(plan.trusted_publisher.is_some(), plan.registry == Registry::Npm);
    }
    let cargo = &plans[1];
    let command = cargo.steps[0].command.as_ref().unwrap();
    assert_eq!(command.program, "cargo");
    assert_eq!(command.args, vec!["publish".to_owned(), "--dry-run".to_owned()]);
    assert_eq!(cargo.steps[1].url.as_deref(), Some("https://crates.io/settings/tokens"));
    let pypi = &plans[2];
    assert_eq!(
        pypi.steps[1].url.as_deref(),
        Some("https://pypi.org/manage/project/acme-widgets/settings/publishing/")
    );
    let go = &plans[3];
    assert_eq!(go.steps[1].kind, StepKind::Manual);
    assert_eq!(go.steps[1].id, "publish-tag");
}

#[test]
fn plans_can_be_restricted_to_selected_registries() {
    let inspection = fixture();
    let plans = build_plans_for(&inspection, &[Registry::Packagist, Registry::PyPi]);
    let registries: Vec<Registry> = plans.iter().map(|p| p.registry).collect();
    assert_eq!(registries, vec![Registry::PyPi, Registry::Packagist]);
    assert_eq!(build_plans_for(&inspection, &[]).len(), 7);
}

#[test]
fn problems_of_a_nested_package_name_its_directory() {
    let inspection = inspect_repository(
        "/work/app".to_owned(),
        vec![manifest("js/package.json", "{\"name\": \"internal\", \"private\": true}")],
        None,
        vec![],
    )
    .unwrap();
    let package = &inspection.packages[0];
    assert!(!package.publishable);
    assert_eq!(package.problems, vec!["package.json marks this package as private".to_owned()]);
    let plan = build_plan(&inspection, package);
    assert_eq!(
        plan.package.problems,
        vec!["package.json marks this package as private (manifest directory: js)".to_owned()]
    );
    assert_eq!(plan.trusted_publisher, None);
}

#[test]
fn ignored_directories_and_a_shadowed_setup_py_are_not_discovered() {
    let mut listing = fixture_manifests();
    listing.push(manifest("node_modules/dep/package.json", "{\"name\": \"should-not-be-discovered\"}"));
    listing.push(manifest("vendor/lib/composer.json", "{\"name\": \"should-not-be-discovered\"}"));
    listing.push(manifest("python/setup.py", "setup(name='should-not-be-discovered')"));
    listing.push(manifest("docs/README.md", "not a manifest"));
    let walked: Vec<ManifestFile> = listing
        .into_iter()
        .filter(|m| {
            let parts: Vec<&str> = m.path.split('/').collect();
            let (file, directories) = parts.split_last().unwrap();
            is_manifest(file) && !directories.iter().any(|d| is_ignored_directory(d))
        })
        .collect();
    assert_eq!(walked.len(), 8);
    let inspection = inspect_listing(walked, fixture_workflows());
    assert_eq!(inspection.packages.len(), 7);
    assert!(inspection.packages.iter().all(|p| p.name != "should-not-be-discovered"));
    assert_eq!(inspection, fixture());
}

#[test]
fn inspection_ignores_the_listing_order() {
    let mut manifests = fixture_manifests();
    manifests.reverse();
    let mut workflows = fixture_workflows();
    workflows.reverse();
    assert_eq!(inspect_listing(manifests, workflows), fixture());
}

#[test]
fn inspected_packages_list_problems_exactly_when_unpublishable() {
    let inspection = inspect_repository(
        "/r".to_owned(),
        vec![
            manifest("a/package.json", "{\"name\": \"a\", \"private\": true}"),
            manifest("b/Cargo.toml", "[package]\nname = \"b\"\npublish = false\n"),
            manifest("c/package.json", "{\"name\": \"c\"}"),
            manifest("d/go.mod", "module d\n"),
        ],
        None,
        vec![],
    )
    .unwrap();
    for package in &inspection.packages {
        assert_eq!(package.problems.is_empty(), package.publishable);
        if !package.publishable {
            assert!(package.registry == Registry::Npm || package.registry == Registry::CratesIo);
        }
        assert!(is_manifest(package.manifest.rsplit('/').next().unwrap()));
    }
    assert_eq!(inspection.packages.iter().filter(|p| !p.publishable).count(), 2);
}
