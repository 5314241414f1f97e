//! The data that inspection and planning exchange, and the abstract values
//! (`…Model`) that contracts speak of.

use vstd::prelude::*;
use vstd::string::StringExecFns;

use crate::text::{ascii_lower, chars_of, lower_char, text_eq, text_from_chars};

verus! {

/// A supported public package registry.
#[derive(Debug, Clone, Copy, PartialEq, Eq, PartialOrd, Ord, Hash, Structural)]
pub enum Registry {
    Npm,
    CratesIo,
    PyPi,
    GoModules,
    NuGet,
    MavenCentral,
    Packagist,
}

/// The position of a registry in the declared order, which is the order in
/// which inspected packages are listed.
pub open spec fn registry_rank(r: Registry) -> nat {
    match r {
        Registry::Npm => 0,
        Registry::CratesIo => 1,
        Registry::PyPi => 2,
        Registry::GoModules => 3,
        Registry::NuGet => 4,
        Registry::MavenCentral => 5,
        Registry::Packagist => 6,
    }
}

/// Human-readable registry name.
pub open spec fn spec_display_name(r: Registry) -> Seq<char> {
    match r {
        Registry::Npm => "npm"@,
        Registry::CratesIo => "crates.io"@,
        Registry::PyPi => "PyPI"@,
        Registry::GoModules => "Go modules"@,
        Registry::NuGet => "NuGet"@,
        Registry::MavenCentral => "Maven Central"@,
        Registry::Packagist => "Packagist"@,
    }
}

/// Canonical machine name, as used in JSON and on the command line.
pub open spec fn spec_canonical_name(r: Registry) -> Seq<char> {
    match r {
        Registry::Npm => "npm"@,
        Registry::CratesIo => "crates-io"@,
        Registry::PyPi => "pypi"@,
        Registry::GoModules => "go-modules"@,
        Registry::NuGet => "nuget"@,
        Registry::MavenCentral => "maven-central"@,
        Registry::Packagist => "packagist"@,
    }
}

impl Registry {
    /// Every supported registry, in declaration order.
    pub const ALL: [Registry; 7] = [
        Registry::Npm,
        Registry::CratesIo,
        Registry::PyPi,
        Registry::GoModules,
        Registry::NuGet,
        Registry::MavenCentral,
        Registry::Packagist,
    ];

    /// The registry's human-readable name, such as `crates.io`.
    pub fn display_name(self) -> (name: &'static str)
        ensures
            name@ == spec_display_name(self),
    {
        match self {
            Registry::Npm => "npm",
            Registry::CratesIo => "crates.io",
            Registry::PyPi => "PyPI",
            Registry::GoModules => "Go modules",
            Registry::NuGet => "NuGet",
            Registry::MavenCentral => "Maven Central",
            Registry::Packagist => "Packagist",
        }
    }


    /// The registry's canonical machine name, such as `crates-io`.
    pub fn as_str(self) -> (name: &'static str)
        ensures
            name@ == spec_canonical_name(self),
    {
        match self {
            Registry::Npm => "npm",
            Registry::CratesIo => "crates-io",
            Registry::PyPi => "pypi",
            Registry::GoModules => "go-modules",
            Registry::NuGet => "nuget",
            Registry::MavenCentral => "maven-central",
            Registry::Packagist => "packagist",
        }
    }
}

/// How a registry name given on the command line is read: ASCII letters are
/// lowercased, and `.` and `_` become `-`.
pub open spec fn registry_name_char(c: char) -> char {
    if c == '.' || c == '_' {
        '-'
    } else {
        ascii_lower(c)
    }
}

pub open spec fn normalize_registry_name(s: Seq<char>) -> Seq<char> {
    s.map_values(|c: char| registry_name_char(c))
}

/// The registry that a normalized name or alias stands for.
pub open spec fn registry_for_alias(n: Seq<char>) -> Option<Registry> {
    if n == "npm"@ {
        Some(Registry::Npm)
    } else if n == "cargo"@ || n == "crate"@ || n == "crates"@ || n == "crates-io"@ {
        Some(Registry::CratesIo)
    } else if n == "python"@ || n == "pypi"@ {
        Some(Registry::PyPi)
    } else if n == "go"@ || n == "go-module"@ || n == "go-modules"@ {
        Some(Registry::GoModules)
    } else if n == "dotnet"@ || n == "nuget"@ {
        Some(Registry::NuGet)
    } else if n == "java"@ || n == "maven"@ || n == "maven-central"@ {
        Some(Registry::MavenCentral)
    } else if n == "composer"@ || n == "php"@ || n == "packagist"@ {
        Some(Registry::Packagist)
    } else {
        None
    }
}

/// The registry named by `value`, if any.
pub open spec fn spec_parse_registry(value: Seq<char>) -> Option<Registry> {
    registry_for_alias(normalize_registry_name(value))
}

pub open spec fn unsupported_registry_message(value: Seq<char>) -> Seq<char> {
    "unsupported registry '"@ + value
        + "'; expected npm, crates-io, pypi, go-modules, nuget, maven-central, or packagist"@
}

/// A registry name that names no supported registry.
#[derive(Debug, Clone, PartialEq, Eq)]
pub struct UnsupportedRegistry {
    pub value: String,
}

impl UnsupportedRegistry {
    /// The message shown to the user, naming the accepted values.
    pub fn message(&self) -> (m: String)
        ensures
            m@ == unsupported_registry_message(self.value@),
    {
        let mut m = "unsupported registry '".to_owned();
        m.append(self.value.as_str());
        m.append("'; expected npm, crates-io, pypi, go-modules, nuget, maven-central, or packagist");
        m
    }
}

fn registry_name_char_exec(c: char) -> (r: char)
    ensures
        r == registry_name_char(c),
{
    if c == '.' || c == '_' {
        '-'
    } else {
        lower_char(c)
    }
}

impl Registry {
    /// Reads a registry name or alias (`cargo`, `python`, `go`, `dotnet`,
    /// `maven`, `composer`, ...), ignoring ASCII case and treating `.` and `_`
    /// as `-`.
    pub fn parse(value: &str) -> (r: Result<Registry, UnsupportedRegistry>)
        ensures
            match spec_parse_registry(value@) {
                Some(registry) => r == Ok::<Registry, UnsupportedRegistry>(registry),
                None => r matches Err(e) && e.value@ == value@,
            },
    {
        let cs = chars_of(value);
        let mut norm: Vec<char> = Vec::new();
        for i in 0..cs.len()
            invariant
                cs@ == value@,
                norm@ == normalize_registry_name(value@).take(i as int),
        {
            let c = registry_name_char_exec(cs[i]);
            norm.push(c);
            assert(norm@ =~= normalize_registry_name(value@).take(i + 1));
        }
        assert(norm@ =~= normalize_registry_name(value@));
        let owned = text_from_chars(norm.as_slice());
        let n = owned.as_str();
        if text_eq(n, "npm") {
            Ok(Registry::Npm)
        } else if text_eq(n, "cargo") || text_eq(n, "crate") || text_eq(n, "crates")
            || text_eq(n, "crates-io") {
            Ok(Registry::CratesIo)
        } else if text_eq(n, "python") || text_eq(n, "pypi") {
            Ok(Registry::PyPi)
        } else if text_eq(n, "go") || text_eq(n, "go-module") || text_eq(n, "go-modules") {
            Ok(Registry::GoModules)
        } else if text_eq(n, "dotnet") || text_eq(n, "nuget") {
            Ok(Registry::NuGet)
        } else if text_eq(n, "java") || text_eq(n, "maven") || text_eq(n, "maven-central") {
            Ok(Registry::MavenCentral)
        } else if text_eq(n, "composer") || text_eq(n, "php") || text_eq(n, "packagist") {
            Ok(Registry::Packagist)
        } else {
            Err(UnsupportedRegistry { value: value.to_owned() })
        }
    }
}

impl std::str::FromStr for Registry {
    type Err = UnsupportedRegistry;

    /// Reads a registry name or alias, as `Registry::parse` does.
    fn from_str(value: &str) -> (r: Result<Registry, UnsupportedRegistry>)
        ensures
            match spec_parse_registry(value@) {
                Some(registry) => r == Ok::<Registry, UnsupportedRegistry>(registry),
                None => r matches Err(e) && e.value@ == value@,
            },
    {
        Registry::parse(value)
    }
}

/// Reads a registry argument of the command line; the error is the message
/// shown to the user.
pub fn parse_registry(value: &str) -> (r: Result<Registry, String>)
    ensures
        match spec_parse_registry(value@) {
            Some(registry) => r == Ok::<Registry, String>(registry),
            None => r matches Err(m) && m@ == unsupported_registry_message(value@),
        },
{
    match Registry::parse(value) {
        Ok(registry) => Ok(registry),
        Err(error) => Err(error.message()),
    }
}

/// Reading back the canonical name of a registry gives that registry: the
/// names written to JSON and shown by `as_str` are accepted by `parse`.
pub proof fn lemma_canonical_name_parses_back(r: Registry)
    ensures
        spec_parse_registry(spec_canonical_name(r)) == Some(r),
{
    let n = spec_canonical_name(r);
    lemma_registry_names_revealed();
    assert(normalize_registry_name(n) =~= n) by {
        assert forall|i: int| 0 <= i < n.len() implies registry_name_char(#[trigger] n[i]) == n[i] by {
            assert(n[i] == '-' || 'a' <= n[i] <= 'z');
        }
    }
}

/// Every documented alias reads as its registry, whatever its ASCII case and
/// with `.` or `_` in place of `-`: `npm`; `cargo`, `crate`, `crates`,
/// `crates-io`; `python`, `pypi`; `go`, `go-module`, `go-modules`;
/// `dotnet`, `nuget`; `java`, `maven`, `maven-central`; `composer`, `php`,
/// `packagist`. Any other text is refused.
pub proof fn lemma_documented_aliases_parse(value: Seq<char>)
    ensures
        ({
            let n = normalize_registry_name(value);
            &&& n == "npm"@ ==> spec_parse_registry(value) == Some(Registry::Npm)
            &&& (n == "cargo"@ || n == "crate"@ || n == "crates"@ || n == "crates-io"@)
                ==> spec_parse_registry(value) == Some(Registry::CratesIo)
            &&& (n == "python"@ || n == "pypi"@) ==> spec_parse_registry(value) == Some(
                Registry::PyPi,
            )
            &&& (n == "go"@ || n == "go-module"@ || n == "go-modules"@) ==> spec_parse_registry(
                value,
            ) == Some(Registry::GoModules)
            &&& (n == "dotnet"@ || n == "nuget"@) ==> spec_parse_registry(value) == Some(
                Registry::NuGet,
            )
            &&& (n == "java"@ || n == "maven"@ || n == "maven-central"@) ==> spec_parse_registry(
                value,
            ) == Some(Registry::MavenCentral)
            &&& (n == "composer"@ || n == "php"@ || n == "packagist"@) ==> spec_parse_registry(
                value,
            ) == Some(Registry::Packagist)
            &&& spec_parse_registry(value) is Some ==> (n == "npm"@ || n == "cargo"@ || n
                == "crate"@ || n == "crates"@ || n == "crates-io"@ || n == "python"@ || n
                == "pypi"@ || n == "go"@ || n == "go-module"@ || n == "go-modules"@ || n
                == "dotnet"@ || n == "nuget"@ || n == "java"@ || n == "maven"@ || n
                == "maven-central"@ || n == "composer"@ || n == "php"@ || n == "packagist"@)
        }),
        forall|i: int|
            0 <= i < value.len() ==> #[trigger] normalize_registry_name(value)[i] == if value[i]
                == '.' || value[i] == '_' {
                '-'
            } else if 'A' <= value[i] <= 'Z' {
                ((value[i] as u32) + 32) as char
            } else {
                value[i]
            },
        normalize_registry_name(value).len() == value.len(),
{
    lemma_registry_names_revealed();
}

/// The registry names and aliases, character by character.
proof fn lemma_registry_names_revealed()
    ensures
        "npm"@ == seq!['n', 'p', 'm'],
        "cargo"@ == seq!['c', 'a', 'r', 'g', 'o'],
        "crate"@ == seq!['c', 'r', 'a', 't', 'e'],
        "crates"@ == seq!['c', 'r', 'a', 't', 'e', 's'],
        "crates-io"@ == seq!['c', 'r', 'a', 't', 'e', 's', '-', 'i', 'o'],
        "python"@ == seq!['p', 'y', 't', 'h', 'o', 'n'],
        "pypi"@ == seq!['p', 'y', 'p', 'i'],
        "go"@ == seq!['g', 'o'],
        "go-module"@ == seq!['g', 'o', '-', 'm', 'o', 'd', 'u', 'l', 'e'],
        "go-modules"@ == seq!['g', 'o', '-', 'm', 'o', 'd', 'u', 'l', 'e', 's'],
        "dotnet"@ == seq!['d', 'o', 't', 'n', 'e', 't'],
        "nuget"@ == seq!['n', 'u', 'g', 'e', 't'],
        "java"@ == seq!['j', 'a', 'v', 'a'],
        "maven"@ == seq!['m', 'a', 'v', 'e', 'n'],
        "maven-central"@ == seq!['m', 'a', 'v', 'e', 'n', '-', 'c', 'e', 'n', 't', 'r', 'a', 'l'],
        "composer"@ == seq!['c', 'o', 'm', 'p', 'o', 's', 'e', 'r'],
        "php"@ == seq!['p', 'h', 'p'],
        "packagist"@ == seq!['p', 'a', 'c', 'k', 'a', 'g', 'i', 's', 't'],
{
    reveal_strlit("npm");
    reveal_strlit("cargo");
    reveal_strlit("crate");
    reveal_strlit("crates");
    reveal_strlit("crates-io");
    reveal_strlit("python");
    reveal_strlit("pypi");
    reveal_strlit("go");
    reveal_strlit("go-module");
    reveal_strlit("go-modules");
    reveal_strlit("dotnet");
    reveal_strlit("nuget");
    reveal_strlit("java");
    reveal_strlit("maven");
    reveal_strlit("maven-central");
    reveal_strlit("composer");
    reveal_strlit("php");
    reveal_strlit("packagist");
}

/// The abstract value of a [`Package`].
pub struct PackageModel {
    pub registry: Registry,
    pub name: Seq<char>,
    pub version: Option<Seq<char>>,
    pub manifest: Seq<char>,
    pub publishable: bool,
    pub problems: Seq<Seq<char>>,
}

/// A package found in one manifest of the repository.
#[derive(Debug, Clone, PartialEq, Eq)]
pub struct Package {
    pub registry: Registry,
    pub name: String,
    pub version: Option<String>,
    /// Path of the manifest relative to the repository root, `/`-separated.
    pub manifest: String,
    pub publishable: bool,
    pub problems: Vec<String>,
}

pub open spec fn opt_text(o: Option<String>) -> Option<Seq<char>> {
    match o {
        Some(s) => Some(s@),
        None => None,
    }
}

pub open spec fn texts(v: Vec<String>) -> Seq<Seq<char>> {
    v@.map_values(|s: String| s@)
}

impl View for Package {
    type V = PackageModel;

    open spec fn view(&self) -> PackageModel {
        PackageModel {
            registry: self.registry,
            name: self.name@,
            version: opt_text(self.version),
            manifest: self.manifest@,
            publishable: self.publishable,
            problems: texts(self.problems),
        }
    }
}

/// The abstract value of a [`RepositoryInfo`].
pub struct RepositoryModel {
    pub root: Seq<char>,
    pub github_owner: Option<Seq<char>>,
    pub github_repository: Option<Seq<char>>,
    pub release_workflow: Option<Seq<char>>,
}

/// What inspection learned about the repository as a whole.
#[derive(Debug, Clone, PartialEq, Eq)]
pub struct RepositoryInfo {
    pub root: String,
    pub github_owner: Option<String>,
    pub github_repository: Option<String>,
    pub release_workflow: Option<String>,
}

impl View for RepositoryInfo {
    type V = RepositoryModel;

    open spec fn view(&self) -> RepositoryModel {
        RepositoryModel {
            root: self.root@,
            github_owner: opt_text(self.github_owner),
            github_repository: opt_text(self.github_repository),
            release_workflow: opt_text(self.release_workflow),
        }
    }
}

/// The abstract value of an [`Inspection`].
pub struct InspectionModel {
    pub schema_version: u8,
    pub repository: RepositoryModel,
    pub packages: Seq<PackageModel>,
}

/// The result of inspecting a repository.
#[derive(Debug, Clone, PartialEq, Eq)]
pub struct Inspection {
    pub schema_version: u8,
    pub repository: RepositoryInfo,
    pub packages: Vec<Package>,
}

pub open spec fn package_models(v: Seq<Package>) -> Seq<PackageModel> {
    v.map_values(|p: Package| p@)
}

impl View for Inspection {
    type V = InspectionModel;

    open spec fn view(&self) -> InspectionModel {
        InspectionModel {
            schema_version: self.schema_version,
            repository: self.repository@,
            packages: package_models(self.packages@),
        }
    }
}

/// How a setup step is carried out.
#[derive(Debug, Clone, Copy, PartialEq, Eq, Structural)]
pub enum StepKind {
    Check,
    Browser,
    Manual,
}

/// The abstract value of a [`CommandSpec`].
pub struct CommandModel {
    pub program: Seq<char>,
    pub args: Seq<Seq<char>>,
}

/// A program and its exact argument vector.
#[derive(Debug, Clone, PartialEq, Eq)]
pub struct CommandSpec {
    pub program: String,
    pub args: Vec<String>,
}

impl View for CommandSpec {
    type V = CommandModel;

    open spec fn view(&self) -> CommandModel {
        CommandModel { program: self.program@, args: texts(self.args) }
    }
}

/// The abstract value of a [`SetupStep`].
pub struct StepModel {
    pub id: Seq<char>,
    pub title: Seq<char>,
    pub kind: StepKind,
    pub description: Seq<char>,
    pub command: Option<CommandModel>,
    pub url: Option<Seq<char>>,
}

/// One step of a setup plan.
#[derive(Debug, Clone, PartialEq, Eq)]
pub struct SetupStep {
    pub id: String,
    pub title: String,
    pub kind: StepKind,
    pub description: String,
    pub command: Option<CommandSpec>,
    pub url: Option<String>,
}

pub open spec fn opt_command(o: Option<CommandSpec>) -> Option<CommandModel> {
    match o {
        Some(c) => Some(c@),
        None => None,
    }
}

impl View for SetupStep {
    type V = StepModel;

    open spec fn view(&self) -> StepModel {
        StepModel {
            id: self.id@,
            title: self.title@,
            kind: self.kind,
            description: self.description@,
            command: opt_command(self.command),
            url: opt_text(self.url),
        }
    }
}

/// The abstract value of a [`TrustedPublisherPrefill`].
pub struct PrefillModel {
    pub provider: Seq<char>,
    pub organization: Seq<char>,
    pub repository: Seq<char>,
    pub workflow: Seq<char>,
    pub environment: Option<Seq<char>>,
}

/// The values written into npm's trusted-publisher form.
#[derive(Debug, Clone, PartialEq, Eq)]
pub struct TrustedPublisherPrefill {
    pub provider: String,
    pub organization: String,
    pub repository: String,
    pub workflow: String,
    pub environment: Option<String>,
}

impl View for TrustedPublisherPrefill {
    type V = PrefillModel;

    open spec fn view(&self) -> PrefillModel {
        PrefillModel {
            provider: self.provider@,
            organization: self.organization@,
            repository: self.repository@,
            workflow: self.workflow@,
            environment: opt_text(self.environment),
        }
    }
}

pub open spec fn opt_prefill(o: Option<TrustedPublisherPrefill>) -> Option<PrefillModel> {
    match o {
        Some(p) => Some(p@),
        None => None,
    }
}

/// The abstract value of a [`SetupPlan`].
pub struct PlanModel {
    pub schema_version: u8,
    pub registry: Registry,
    pub package: PackageModel,
    pub repository: RepositoryModel,
    pub steps: Seq<StepModel>,
    pub trusted_publisher: Option<PrefillModel>,
}

/// The ordered setup steps for one package.
#[derive(Debug, Clone, PartialEq, Eq)]
pub struct SetupPlan {
    pub schema_version: u8,
    pub registry: Registry,
    pub package: Package,
    pub repository: RepositoryInfo,
    pub steps: Vec<SetupStep>,
    pub trusted_publisher: Option<TrustedPublisherPrefill>,
}

pub open spec fn step_models(v: Seq<SetupStep>) -> Seq<StepModel> {
    v.map_values(|s: SetupStep| s@)
}

impl View for SetupPlan {
    type V = PlanModel;

    open spec fn view(&self) -> PlanModel {
        PlanModel {
            schema_version: self.schema_version,
            registry: self.registry,
            package: self.package@,
            repository: self.repository@,
            steps: step_models(self.steps@),
            trusted_publisher: opt_prefill(self.trusted_publisher),
        }
    }
}

pub open spec fn plan_models(v: Seq<SetupPlan>) -> Seq<PlanModel> {
    v.map_values(|p: SetupPlan| p@)
}

} // verus!
