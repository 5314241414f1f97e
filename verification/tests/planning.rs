use package_registry_manager::model::{parse_registry, CommandSpec, Package, RepositoryInfo, StepKind};
use package_registry_manager::plan::{package_directory, url_path_segment};
use package_registry_manager::report::{render_inspection, render_plans, select_plan, SelectPlanError};
use package_registry_manager::setup::{
    default_browser_profile, is_affirmative, join_path, setup_step, ExecuteOptions, SetupAction,
    SetupEvent, SetupState,
};
use package_registry_manager::{build_plans, Inspection, Registry, SetupPlan};

fn package(registry: Registry, name: &str, manifest: &str, publishable: bool) -> Package {
    Package {
        registry,
        name: name.to_owned(),
        version: Some("1.0.0".to_owned()),
        manifest: manifest.to_owned(),
        publishable,
        problems: if publishable { vec![] } else { vec!["private".to_owned(), "draft".to_owned()] },
    }
}

fn inspection(packages: Vec<Package>, complete: bool) -> Inspection {
    Inspection {
        schema_version: 1,
        repository: RepositoryInfo {
            root: "/work/repo".to_owned(),
            github_owner: Some("acme".to_owned()),
            github_repository: Some("repo".to_owned()),
            release_workflow: if complete { Some("release.yml".to_owned()) } else { None },
        },
        packages,
    }
}

fn options(execute: bool, yes: bool, no_browser: bool) -> ExecuteOptions {
    ExecuteOptions {
        repository: "/work/repo".to_owned(),
        browser_profile: default_browser_profile("/work/repo"),
        browser_channel: "chrome".to_owned(),
        execute,
        yes,
        no_browser,
        verbose: false,
    }
}

fn npm_plan(complete: bool) -> SetupPlan {
    build_plans(&inspection(vec![package(Registry::Npm, "@acme/widgets", "package.json", true)], complete))
        .remove(0)
}

#[test]
fn registry_names_and_aliases_are_read() {
    assert_eq!(parse_registry("npm"), Ok(Registry::Npm));
    assert_eq!(parse_registry("Crates.IO"), Ok(Registry::CratesIo));
    assert_eq!(parse_registry("crates_io"), Ok(Registry::CratesIo));
    assert_eq!(parse_registry("cargo"), Ok(Registry::CratesIo));
    assert_eq!(parse_registry("Python"), Ok(Registry::PyPi));
    assert_eq!(parse_registry("go"), Ok(Registry::GoModules));
    assert_eq!(parse_registry("dotnet"), Ok(Registry::NuGet));
    assert_eq!(parse_registry("maven_central"), Ok(Registry::MavenCentral));
    assert_eq!(parse_registry("php"), Ok(Registry::Packagist));
    assert_eq!(
        parse_registry("ruby"),
        Err("unsupported registry 'ruby'; expected npm, crates-io, pypi, go-modules, nuget, maven-central, or packagist".to_owned())
    );
    assert_eq!("PyPI".parse::<Registry>(), Ok(Registry::PyPi));
    assert_eq!("gems".parse::<Registry>().unwrap_err().value, "gems");
}

#[test]
fn canonical_names_read_back_as_their_registry() {
    for registry in Registry::ALL {
        assert_eq!(parse_registry(registry.as_str()), Ok(registry));
    }
    assert_eq!(Registry::CratesIo.as_str(), "crates-io");
    assert_eq!(Registry::CratesIo.display_name(), "crates.io");
    assert_eq!(Registry::GoModules.display_name(), "Go modules");
    assert_eq!(Registry::MavenCentral.display_name(), "Maven Central");
}

#[test]
fn package_directories_and_url_segments() {
    assert_eq!(package_directory("rust/crates/Cargo.toml"), "rust/crates");
    assert_eq!(package_directory("package.json"), ".");
    assert_eq!(url_path_segment("@acme/widgets"), "@acme%2Fwidgets");
    assert_eq!(url_path_segment("a b+c"), "a%20b%2Bc");
    assert_eq!(url_path_segment("Ab-_.~9"), "Ab-_.~9");
    assert_eq!(url_path_segment("é"), "%C3%A9");
    for value in ["@acme/widgets", "ünï/cödé", "a b", "plain-name_1.0~x@y"] {
        let segment = url_path_segment(value);
        assert!(segment.is_ascii());
        assert!(!segment.contains('/'));
    }
    assert_eq!(url_path_segment("plain-name_1.0~x@y"), "plain-name_1.0~x@y");
}

#[test]
fn an_incomplete_repository_gets_no_prefill() {
    assert!(npm_plan(true).trusted_publisher.is_some());
    assert_eq!(npm_plan(false).trusted_publisher, None);
}

#[test]
fn the_text_forms_list_packages_and_steps() {
    let found = inspection(
        vec![
            package(Registry::Npm, "web", "web/package.json", true),
            package(Registry::CratesIo, "core", "Cargo.toml", false),
        ],
        true,
    );
    assert_eq!(
        render_inspection(&found),
        "Repository: /work/repo\n- npm: web (web/package.json, publishable)\n- crates-io: core (Cargo.toml, not publishable)\n"
    );
    assert_eq!(
        render_inspection(&inspection(vec![], true)),
        "Repository: /work/repo\nNo supported package manifests found.\n"
    );
    let plans = build_plans(&found);
    assert_eq!(
        render_plans(&plans[1..].to_vec()),
        "crates-io: core\n  1. Validate the crate\n     $ cargo publish --dry-run\n  2. Review crates.io account settings\n     https://crates.io/settings/tokens\n"
    );
}

#[test]
fn a_plan_is_chosen_by_package_name_or_uniqueness() {
    let plans = build_plans(&inspection(
        vec![
            package(Registry::Npm, "a", "a/package.json", true),
            package(Registry::Npm, "b", "b/package.json", true),
        ],
        true,
    ));
    assert_eq!(select_plan(&plans, Some("b")).unwrap().package.name, "b");
    assert_eq!(select_plan(&plans, None).unwrap_err(), SelectPlanError::Ambiguous);
    let missing = select_plan(&plans, Some("c")).unwrap_err();
    assert_eq!(missing.message(), "package 'c' was not found for this registry");
    assert_eq!(select_plan(&plans[..1], None).unwrap().package.name, "a");
    assert_eq!(select_plan(&[], None).unwrap_err(), SelectPlanError::NoPlans);
    assert_eq!(
        SelectPlanError::Ambiguous.message(),
        "multiple packages use this registry; select one with --package <name>"
    );
}

#[test]
fn setup_is_safe_by_default() {
    let plan = npm_plan(true);
    let (state, action) = setup_step(&plan, &options(false, false, false), SetupState::Start, SetupEvent::Begin);
    assert_eq!(state, SetupState::Done);
    match action {
        SetupAction::Finish { notice: Some(notice) } => assert!(notice.contains("Dry run only")),
        other => panic!("unexpected action {other:?}"),
    }
}

#[test]
fn an_npm_setup_runs_checks_then_fills_and_submits_with_consent() {
    let plan = npm_plan(true);
    let run = options(true, false, false);
    let mut state = SetupState::Start;
    let mut actions = Vec::new();
    for event in [
        SetupEvent::Begin,
        SetupEvent::CommandExited { code: 0 },
        SetupEvent::BrowserReady,
        SetupEvent::FormFilled { nothing_filled: true },
        SetupEvent::FormFilled { nothing_filled: true },
        SetupEvent::Confirmed { accepted: true },
        SetupEvent::FormSubmitted { submitted: true },
        SetupEvent::Reviewed,
    ] {
        let (next, action) = setup_step(&plan, &run, state, event);
        state = next;
        actions.push(action);
    }
    assert_eq!(
        actions,
        vec![
            SetupAction::RunCommand { index: 0 },
            SetupAction::OpenBrowser { url: "https://www.npmjs.com/package/@acme%2Fwidgets/access".to_owned() },
            SetupAction::FillForm,
            SetupAction::PauseAndRefill,
            SetupAction::AskConfirmation,
            SetupAction::SubmitForm { show_fill_result: false },
            SetupAction::AwaitReview,
            SetupAction::Finish { notice: None },
        ]
    );
    assert_eq!(state, SetupState::Done);
}

#[test]
fn setup_failures_are_reported() {
    let plan = npm_plan(true);
    let run = options(true, false, false);
    let failed = setup_step(&plan, &run, SetupState::AwaitCommand { index: 0 }, SetupEvent::CommandExited { code: -2 });
    assert_eq!(failed, (SetupState::Done, SetupAction::Fail { message: "npm exited with status -2".to_owned() }));
    let declined = setup_step(&plan, &run, SetupState::AwaitConfirmation, SetupEvent::Confirmed { accepted: false });
    assert_eq!(declined, (SetupState::AwaitReview, SetupAction::AwaitReview));
    let unsent = setup_step(&plan, &run, SetupState::AwaitSubmission, SetupEvent::FormSubmitted { submitted: false });
    assert_eq!(
        unsent.1,
        SetupAction::Fail { message: "the form was not submitted; review the visible browser and submit manually".to_owned() }
    );
    let bare = npm_plan(false);
    let missing = setup_step(&bare, &run, SetupState::AwaitBrowser, SetupEvent::BrowserReady);
    assert_eq!(
        missing.1,
        SetupAction::Fail { message: "npm setup needs repository metadata that was not found: release workflow".to_owned() }
    );
    let private = build_plans(&inspection(vec![package(Registry::Npm, "x", "package.json", false)], true)).remove(0);
    let refused = setup_step(&private, &run, SetupState::Start, SetupEvent::Begin);
    assert_eq!(refused.1, SetupAction::Fail { message: "x is not publishable: private; draft".to_owned() });
    let stray = setup_step(&plan, &run, SetupState::Done, SetupEvent::Reviewed);
    assert_eq!(stray.1, SetupAction::Fail { message: "unexpected setup event".to_owned() });
}

#[test]
fn other_registries_skip_the_form_and_no_browser_prints_the_url() {
    let plans = build_plans(&inspection(vec![package(Registry::Packagist, "v/p", "composer.json", true)], true));
    let plan = &plans[0];
    let (_, open) = setup_step(plan, &options(true, false, false), SetupState::AwaitCommand { index: 0 }, SetupEvent::CommandExited { code: 0 });
    assert_eq!(open, SetupAction::OpenBrowser { url: "https://packagist.org/packages/submit".to_owned() });
    let ready = setup_step(plan, &options(true, false, false), SetupState::AwaitBrowser, SetupEvent::BrowserReady);
    assert_eq!(ready, (SetupState::AwaitReview, SetupAction::AwaitReview));
    let printed = setup_step(plan, &options(true, false, true), SetupState::AwaitCommand { index: 0 }, SetupEvent::CommandExited { code: 0 });
    assert_eq!(
        printed,
        (SetupState::Done, SetupAction::Finish { notice: Some("Open https://packagist.org/packages/submit".to_owned()) })
    );
    let yes = setup_step(&npm_plan(true), &options(true, true, false), SetupState::AwaitPrefill { retried: false }, SetupEvent::FormFilled { nothing_filled: false });
    assert_eq!(yes, (SetupState::AwaitSubmission, SetupAction::SubmitForm { show_fill_result: true }));
}

#[test]
fn answers_and_paths() {
    assert!(is_affirmative("y\n"));
    assert!(is_affirmative("  YES "));
    assert!(!is_affirmative("yeah"));
    assert!(!is_affirmative(""));
    assert_eq!(default_browser_profile("/work/repo"), "/work/repo/.package-registry-manager/browser-profile");
    assert_eq!(join_path("/work/repo/", "rust"), "/work/repo/rust");
    assert_eq!(join_path("", "rust"), "rust");
}

#[test]
fn steps_and_commands_have_the_documented_shape() {
    let plans = build_plans(&inspection(vec![package(Registry::NuGet, "Lib", "Lib.csproj", true)], true));
    let step = &plans[0].steps[0];
    assert_eq!(step.kind, StepKind::Check);
    assert_eq!(
        step.command,
        Some(CommandSpec { program: "dotnet".to_owned(), args: vec!["pack".to_owned(), "--configuration".to_owned(), "Release".to_owned()] })
    );
    assert_eq!(plans[0].steps[1].url.as_deref(), Some("https://www.nuget.org/account/TrustedPublishing"));
}

#[test]
fn npm_setup_names_exactly_the_missing_repository_identity() {
    let run = options(true, false, false);
    let mut ownerless = inspection(vec![package(Registry::Npm, "w", "package.json", true)], true);
    ownerless.repository.github_owner = None;
    let plan = build_plans(&ownerless).remove(0);
    assert_eq!(plan.trusted_publisher, None);
    assert_eq!(
        setup_step(&plan, &run, SetupState::AwaitBrowser, SetupEvent::BrowserReady).1,
        SetupAction::Fail { message: "npm setup needs repository metadata that was not found: GitHub owner".to_owned() }
    );
    let mut bare = ownerless.clone();
    bare.repository.github_repository = None;
    bare.repository.release_workflow = None;
    let plan = build_plans(&bare).remove(0);
    assert_eq!(
        setup_step(&plan, &run, SetupState::AwaitBrowser, SetupEvent::BrowserReady).1,
        SetupAction::Fail {
            message: "npm setup needs repository metadata that was not found: GitHub owner, GitHub repository, release workflow".to_owned()
        }
    );
}
