//! Repository discovery: which files are manifests, what each manifest says
//! about its package, and what the repository says about itself.

use vstd::prelude::*;
use vstd::string::StringExecFns;

use crate::json_doc::{
    self, json_bool_at, json_has_member, json_parses, json_str_at, JsonDocument,
};
use crate::model::{opt_text, Package, PackageModel, Registry};
use crate::pattern::{compile_pattern, first_group, regex_compiles, regex_first_group};
use crate::text::{
    chars_of, chars_range, index_of_from, index_or_len, last_index, last_index_of,
    lemma_index_or_len_is, matches_at, occurs_at, replace_all, replace_chars, starts_with,
    strip_prefix, text_eq, text_of_range, trim, trim_end_matches, trim_end_matches_len,
    trim_range, trim_start_matches, trim_start_matches_from,
};
use crate::sort::{
    chars_le, insertion_sort, is_sorted, lemma_map_values_multiset, lemma_sorted_by_is_unique,
    sorted_by, lemma_text_le_antisymmetric, lemma_text_le_total,
    lemma_text_le_transitive, text_le, SortKey,
};
use crate::text::{contains_text, join_strings, join_with};
use crate::text::text_contains;
use crate::toml_doc::{self, toml_bool_at, toml_has_member, toml_parses, toml_str_at, TomlDocument};

verus! {

// ---------------------------------------------------------------------------
// Errors
// ---------------------------------------------------------------------------

/// Why a repository could not be inspected.
#[derive(Debug, Clone, PartialEq, Eq)]
pub enum InspectError {
    /// A JSON manifest (`package.json`, `composer.json`) is not valid JSON.
    InvalidJson { manifest: String },
    /// A TOML manifest (`Cargo.toml`, `pyproject.toml`) is not valid TOML.
    InvalidToml { manifest: String },
    /// The `regex` crate rejected one of the library's patterns.
    RejectedPattern { pattern: String },
}

/// The abstract value of an [`InspectError`].
pub enum InspectErrorModel {
    InvalidJson(Seq<char>),
    InvalidToml(Seq<char>),
    RejectedPattern(Seq<char>),
}

impl View for InspectError {
    type V = InspectErrorModel;

    open spec fn view(&self) -> InspectErrorModel {
        match self {
            InspectError::InvalidJson { manifest } => InspectErrorModel::InvalidJson(manifest@),
            InspectError::InvalidToml { manifest } => InspectErrorModel::InvalidToml(manifest@),
            InspectError::RejectedPattern { pattern } => InspectErrorModel::RejectedPattern(
                pattern@,
            ),
        }
    }
}

pub open spec fn error_message(e: InspectErrorModel) -> Seq<char> {
    match e {
        InspectErrorModel::InvalidJson(m) => "invalid JSON in "@ + m,
        InspectErrorModel::InvalidToml(m) => "invalid TOML in "@ + m,
        InspectErrorModel::RejectedPattern(p) => "regular expression does not compile: "@ + p,
    }
}

impl InspectError {
    /// The message shown to the user.
    pub fn message(&self) -> (m: String)
        ensures
            m@ == error_message(self@),
    {
        match self {
            InspectError::InvalidJson { manifest } => {
                let mut m = "invalid JSON in ".to_owned();
                m.append(manifest.as_str());
                m
            },
            InspectError::InvalidToml { manifest } => {
                let mut m = "invalid TOML in ".to_owned();
                m.append(manifest.as_str());
                m
            },
            InspectError::RejectedPattern { pattern } => {
                let mut m = "regular expression does not compile: ".to_owned();
                m.append(pattern.as_str());
                m
            },
        }
    }
}

pub open spec fn text_outcome(r: Result<Option<String>, InspectError>) -> Result<
    Option<Seq<char>>,
    InspectErrorModel,
> {
    match r {
        Ok(o) => Ok(opt_text(o)),
        Err(e) => Err(e@),
    }
}

pub open spec fn package_outcome(r: Result<Option<Package>, InspectError>) -> Result<
    Option<PackageModel>,
    InspectErrorModel,
> {
    match r {
        Ok(Some(p)) => Ok(Some(p@)),
        Ok(None) => Ok(None),
        Err(e) => Err(e@),
    }
}

pub open spec fn package_model(
    registry: Registry,
    name: Seq<char>,
    version: Option<Seq<char>>,
    manifest: Seq<char>,
) -> PackageModel {
    PackageModel { registry, name, version, manifest, publishable: true, problems: seq![] }
}

fn publishable_package(
    registry: Registry,
    name: String,
    version: Option<String>,
    manifest: &str,
) -> (p: Package)
    ensures
        p@ == package_model(registry, name@, opt_text(version), manifest@),
{
    let problems: Vec<String> = Vec::new();
    assert(crate::model::texts(problems) =~= Seq::<Seq<char>>::empty());
    Package { registry, name, version, manifest: manifest.to_owned(), publishable: true, problems }
}

// ---------------------------------------------------------------------------
// JSON manifests
// ---------------------------------------------------------------------------

/// The string member `key` of the top-level object of `text`.
pub open spec fn json_top_str(text: Seq<char>, key: Seq<char>) -> Option<Seq<char>> {
    if json_has_member(text, seq![], key) {
        json_str_at(text, seq![key])
    } else {
        None
    }
}

/// The boolean member `key` of the top-level object of `text`.
pub open spec fn json_top_bool(text: Seq<char>, key: Seq<char>) -> Option<bool> {
    if json_has_member(text, seq![], key) {
        json_bool_at(text, seq![key])
    } else {
        None
    }
}

fn json_top_string(doc: &JsonDocument, key: &str) -> (r: Option<String>)
    ensures
        opt_text(r) == json_top_str(doc.text(), key@),
{
    let root = doc.root();
    match json_doc::member(&root, key) {
        Some(node) => {
            assert(node.path() =~= seq![key@]);
            json_doc::string_value(&node)
        },
        None => None,
    }
}

fn json_top_boolean(doc: &JsonDocument, key: &str) -> (r: Option<bool>)
    ensures
        r == json_top_bool(doc.text(), key@),
{
    let root = doc.root();
    match json_doc::member(&root, key) {
        Some(node) => {
            assert(node.path() =~= seq![key@]);
            json_doc::bool_value(&node)
        },
        None => None,
    }
}

/// What a `package.json` says: nothing without a string `name`; otherwise an
/// npm package that is publishable unless `private` is `true`.
pub open spec fn spec_parse_npm(text: Seq<char>, manifest: Seq<char>) -> Result<
    Option<PackageModel>,
    InspectErrorModel,
> {
    if !json_parses(text) {
        Err(InspectErrorModel::InvalidJson(manifest))
    } else {
        match json_top_str(text, "name"@) {
            None => Ok(None),
            Some(name) => {
                let publishable = json_top_bool(text, "private"@) != Some(true);
                Ok(
                    Some(
                        PackageModel {
                            registry: Registry::Npm,
                            name,
                            version: json_top_str(text, "version"@),
                            manifest,
                            publishable,
                            problems: if publishable {
                                seq![]
                            } else {
                                seq!["package.json marks this package as private"@]
                            },
                        },
                    ),
                )
            },
        }
    }
}

fn problems_unless(ok: bool, problem: &str) -> (v: Vec<String>)
    ensures
        crate::model::texts(v) == (if ok {
            Seq::<Seq<char>>::empty()
        } else {
            seq![problem@]
        }),
{
    let mut v: Vec<String> = Vec::new();
    if !ok {
        v.push(problem.to_owned());
    }
    assert(crate::model::texts(v) =~= (if ok {
        Seq::<Seq<char>>::empty()
    } else {
        seq![problem@]
    }));
    v
}

/// Reads a `package.json`.
pub fn parse_npm(contents: &str, manifest: &str) -> (r: Result<Option<Package>, InspectError>)
    ensures
        package_outcome(r) == spec_parse_npm(contents@, manifest@),
{
    let doc = match JsonDocument::parse(contents) {
        Some(doc) => doc,
        None => {
            return Err(InspectError::InvalidJson { manifest: manifest.to_owned() });
        },
    };
    let name = match json_top_string(&doc, "name") {
        Some(name) => name,
        None => {
            return Ok(None);
        },
    };
    let private = json_top_boolean(&doc, "private");
    let publishable = !(private == Some(true));
    let version = json_top_string(&doc, "version");
    let problems = problems_unless(publishable, "package.json marks this package as private");
    Ok(
        Some(
            Package {
                registry: Registry::Npm,
                name,
                version,
                manifest: manifest.to_owned(),
                publishable,
                problems,
            },
        ),
    )
}

/// What a `composer.json` says: a Packagist package when it has a string
/// `name`.
pub open spec fn spec_parse_composer(text: Seq<char>, manifest: Seq<char>) -> Result<
    Option<PackageModel>,
    InspectErrorModel,
> {
    if !json_parses(text) {
        Err(InspectErrorModel::InvalidJson(manifest))
    } else {
        match json_top_str(text, "name"@) {
            None => Ok(None),
            Some(name) => Ok(
                Some(
                    package_model(
                        Registry::Packagist,
                        name,
                        json_top_str(text, "version"@),
                        manifest,
                    ),
                ),
            ),
        }
    }
}

/// Reads a `composer.json`.
pub fn parse_composer(contents: &str, manifest: &str) -> (r: Result<Option<Package>, InspectError>)
    ensures
        package_outcome(r) == spec_parse_composer(contents@, manifest@),
{
    let doc = match JsonDocument::parse(contents) {
        Some(doc) => doc,
        None => {
            return Err(InspectError::InvalidJson { manifest: manifest.to_owned() });
        },
    };
    let name = match json_top_string(&doc, "name") {
        Some(name) => name,
        None => {
            return Ok(None);
        },
    };
    let version = json_top_string(&doc, "version");
    Ok(Some(publishable_package(Registry::Packagist, name, version, manifest)))
}

// ---------------------------------------------------------------------------
// TOML manifests
// ---------------------------------------------------------------------------

/// The string under `key` in the table at `path` of the document `text`.
pub open spec fn toml_get_str(text: Seq<char>, path: Seq<Seq<char>>, key: Seq<char>) -> Option<
    Seq<char>,
> {
    if toml_has_member(text, path, key) {
        toml_str_at(text, path.push(key))
    } else {
        None
    }
}

fn toml_string_in(node: &toml_doc::TomlNode, key: &str) -> (r: Option<String>)
    ensures
        opt_text(r) == toml_get_str(node.text(), node.path(), key@),
{
    match toml_doc::member(node, key) {
        Some(child) => toml_doc::string_value(&child),
        None => None,
    }
}

/// What a `Cargo.toml` says: a crate when `[package]` has a string `name`;
/// it is publishable unless `publish = false`.
pub open spec fn spec_parse_cargo(text: Seq<char>, manifest: Seq<char>) -> Result<
    Option<PackageModel>,
    InspectErrorModel,
> {
    let package = seq!["package"@];
    if !toml_parses(text) {
        Err(InspectErrorModel::InvalidToml(manifest))
    } else if !toml_has_member(text, seq![], "package"@) {
        Ok(None)
    } else {
        match toml_get_str(text, package, "name"@) {
            None => Ok(None),
            Some(name) => {
                let publishable = !(toml_has_member(text, package, "publish"@) && toml_bool_at(
                    text,
                    package.push("publish"@),
                ) == Some(false));
                Ok(
                    Some(
                        PackageModel {
                            registry: Registry::CratesIo,
                            name,
                            version: toml_get_str(text, package, "version"@),
                            manifest,
                            publishable,
                            problems: if publishable {
                                seq![]
                            } else {
                                seq!["Cargo.toml disables publishing"@]
                            },
                        },
                    ),
                )
            },
        }
    }
}

/// Reads a `Cargo.toml`.
pub fn parse_cargo(contents: &str, manifest: &str) -> (r: Result<Option<Package>, InspectError>)
    ensures
        package_outcome(r) == spec_parse_cargo(contents@, manifest@),
{
    let doc = match TomlDocument::parse(contents) {
        Some(doc) => doc,
        None => {
            return Err(InspectError::InvalidToml { manifest: manifest.to_owned() });
        },
    };
    let root = doc.root();
    let package = match toml_doc::member(&root, "package") {
        Some(package) => package,
        None => {
            return Ok(None);
        },
    };
    assert(package.path() =~= seq!["package"@]);
    let name = match toml_string_in(&package, "name") {
        Some(name) => name,
        None => {
            return Ok(None);
        },
    };
    let publish = match toml_doc::member(&package, "publish") {
        Some(flag) => toml_doc::bool_value(&flag),
        None => None,
    };
    let publishable = !(publish == Some(false));
    let version = toml_string_in(&package, "version");
    let problems = problems_unless(publishable, "Cargo.toml disables publishing");
    Ok(
        Some(
            Package {
                registry: Registry::CratesIo,
                name,
                version,
                manifest: manifest.to_owned(),
                publishable,
                problems,
            },
        ),
    )
}

/// Where a `pyproject.toml` keeps its metadata: `[project]`, or else
/// `[tool.poetry]`.
pub open spec fn pyproject_metadata(text: Seq<char>) -> Option<Seq<Seq<char>>> {
    if toml_has_member(text, seq![], "project"@) {
        Some(seq!["project"@])
    } else if toml_has_member(text, seq![], "tool"@) && toml_has_member(
        text,
        seq!["tool"@],
        "poetry"@,
    ) {
        Some(seq!["tool"@, "poetry"@])
    } else {
        None
    }
}

/// What a `pyproject.toml` says: a PyPI package when its metadata table has a
/// string `name`.
pub open spec fn spec_parse_pyproject(text: Seq<char>, manifest: Seq<char>) -> Result<
    Option<PackageModel>,
    InspectErrorModel,
> {
    if !toml_parses(text) {
        Err(InspectErrorModel::InvalidToml(manifest))
    } else {
        match pyproject_metadata(text) {
            None => Ok(None),
            Some(path) => match toml_get_str(text, path, "name"@) {
                None => Ok(None),
                Some(name) => Ok(
                    Some(
                        package_model(
                            Registry::PyPi,
                            name,
                            toml_get_str(text, path, "version"@),
                            manifest,
                        ),
                    ),
                ),
            },
        }
    }
}

/// Reads a `pyproject.toml`.
pub fn parse_pyproject(contents: &str, manifest: &str) -> (r: Result<Option<Package>, InspectError>)
    ensures
        package_outcome(r) == spec_parse_pyproject(contents@, manifest@),
{
    let doc = match TomlDocument::parse(contents) {
        Some(doc) => doc,
        None => {
            return Err(InspectError::InvalidToml { manifest: manifest.to_owned() });
        },
    };
    let root = doc.root();
    let metadata = match toml_doc::member(&root, "project") {
        Some(project) => {
            assert(project.path() =~= seq!["project"@]);
            project
        },
        None => {
            let tool = match toml_doc::member(&root, "tool") {
                Some(tool) => tool,
                None => {
                    return Ok(None);
                },
            };
            assert(tool.path() =~= seq!["tool"@]);
            match toml_doc::member(&tool, "poetry") {
                Some(poetry) => {
                    assert(poetry.path() =~= seq!["tool"@, "poetry"@]);
                    poetry
                },
                None => {
                    return Ok(None);
                },
            }
        },
    };
    let name = match toml_string_in(&metadata, "name") {
        Some(name) => name,
        None => {
            return Ok(None);
        },
    };
    let version = toml_string_in(&metadata, "version");
    Ok(Some(publishable_package(Registry::PyPi, name, version, manifest)))
}

// ---------------------------------------------------------------------------
// Manifests read with regular expressions
// ---------------------------------------------------------------------------

/// `name=` argument of a `setup.py`.
pub const SETUP_NAME_PATTERN: &'static str = r#"(?m)\bname\s*=\s*['\"]([^'\"]+)"#;

/// `version=` argument of a `setup.py`.
pub const SETUP_VERSION_PATTERN: &'static str = r#"(?m)\bversion\s*=\s*['\"]([^'\"]+)"#;

/// `group = ...` line of a Gradle build.
pub const GRADLE_GROUP_PATTERN: &'static str = r#"(?m)^\s*group\s*=\s*['\"]([^'\"]+)"#;

/// `archivesBaseName = ...` or `rootProject.name = ...` line of a Gradle build.
pub const GRADLE_ARTIFACT_PATTERN: &'static str =
    r#"(?m)^\s*(?:archivesBaseName|rootProject\.name)\s*=\s*['\"]([^'\"]+)"#;

/// `version = ...` line of a Gradle build.
pub const GRADLE_VERSION_PATTERN: &'static str = r#"(?m)^\s*version\s*=\s*['\"]([^'\"]+)"#;

/// `url = ...` line of a Git configuration.
pub const GIT_REMOTE_URL_PATTERN: &'static str = r"(?m)^\s*url\s*=\s*(\S+)";

/// Group 1 of the first match of `pattern`, or the rejected pattern.
pub open spec fn spec_capture(pattern: Seq<char>, text: Seq<char>) -> Result<
    Option<Seq<char>>,
    InspectErrorModel,
> {
    if regex_compiles(pattern) {
        Ok(regex_first_group(pattern, text))
    } else {
        Err(InspectErrorModel::RejectedPattern(pattern))
    }
}

fn regex_capture(contents: &str, pattern: &str) -> (r: Result<Option<String>, InspectError>)
    ensures
        text_outcome(r) == spec_capture(pattern@, contents@),
{
    match compile_pattern(pattern) {
        Some(compiled) => Ok(first_group(&compiled, contents)),
        None => Err(InspectError::RejectedPattern { pattern: pattern.to_owned() }),
    }
}

/// The pattern that finds the text of the first `<tag>` element.
pub open spec fn xml_pattern(tag: Seq<char>) -> Seq<char> {
    "(?s)<"@ + tag + r"(?:\s[^>]*)?>\s*([^<]+?)\s*</"@ + tag + ">"@
}

/// The trimmed text of the first `<tag>` element.
pub open spec fn spec_xml_tag(text: Seq<char>, tag: Seq<char>) -> Result<
    Option<Seq<char>>,
    InspectErrorModel,
> {
    spec_capture(xml_pattern(tag), text)
}

fn xml_tag(contents: &str, tag: &str) -> (r: Result<Option<String>, InspectError>)
    ensures
        text_outcome(r) == spec_xml_tag(contents@, tag@),
{
    let mut pattern = "(?s)<".to_owned();
    pattern.append(tag);
    pattern.append(r"(?:\s[^>]*)?>\s*([^<]+?)\s*</");
    pattern.append(tag);
    pattern.append(">");
    regex_capture(contents, pattern.as_str())
}

pub open spec fn text_or(o: Option<Seq<char>>, fallback: Seq<char>) -> Seq<char> {
    match o {
        Some(t) => t,
        None => fallback,
    }
}

fn string_or(o: Option<String>, fallback: &str) -> (r: String)
    ensures
        r@ == text_or(opt_text(o), fallback@),
{
    match o {
        Some(t) => t,
        None => fallback.to_owned(),
    }
}

pub open spec fn built_outcome(r: Result<Package, InspectError>) -> Result<
    PackageModel,
    InspectErrorModel,
> {
    match r {
        Ok(p) => Ok(p@),
        Err(e) => Err(e@),
    }
}

/// What a `setup.py` says: a PyPI package named by its `name=` argument, or
/// `unknown-python-package`.
pub open spec fn spec_parse_setup_py(text: Seq<char>, manifest: Seq<char>) -> Result<
    PackageModel,
    InspectErrorModel,
> {
    match spec_capture(SETUP_NAME_PATTERN@, text) {
        Err(e) => Err(e),
        Ok(name) => match spec_capture(SETUP_VERSION_PATTERN@, text) {
            Err(e) => Err(e),
            Ok(version) => Ok(
                package_model(
                    Registry::PyPi,
                    text_or(name, "unknown-python-package"@),
                    version,
                    manifest,
                ),
            ),
        },
    }
}

/// Reads a `setup.py`.
pub fn parse_setup_py(contents: &str, manifest: &str) -> (r: Result<Package, InspectError>)
    ensures
        built_outcome(r) == spec_parse_setup_py(contents@, manifest@),
{
    let name = regex_capture(contents, SETUP_NAME_PATTERN)?;
    let version = regex_capture(contents, SETUP_VERSION_PATTERN)?;
    let name = string_or(name, "unknown-python-package");
    Ok(publishable_package(Registry::PyPi, name, version, manifest))
}

/// `group:artifact` when the group is known, else the artifact alone.
pub open spec fn maven_name(group: Option<Seq<char>>, artifact: Seq<char>) -> Seq<char> {
    match group {
        Some(g) => g + ":"@ + artifact,
        None => artifact,
    }
}

fn maven_coordinates(group: Option<String>, artifact: String) -> (r: String)
    ensures
        r@ == maven_name(opt_text(group), artifact@),
{
    match group {
        Some(g) => {
            let mut name = g;
            name.append(":");
            name.append(artifact.as_str());
            name
        },
        None => artifact,
    }
}

/// What a `pom.xml` says: a Maven Central package `groupId:artifactId`.
pub open spec fn spec_parse_maven(text: Seq<char>, manifest: Seq<char>) -> Result<
    PackageModel,
    InspectErrorModel,
> {
    match spec_xml_tag(text, "artifactId"@) {
        Err(e) => Err(e),
        Ok(artifact) => match spec_xml_tag(text, "groupId"@) {
            Err(e) => Err(e),
            Ok(group) => match spec_xml_tag(text, "version"@) {
                Err(e) => Err(e),
                Ok(version) => Ok(
                    package_model(
                        Registry::MavenCentral,
                        maven_name(group, text_or(artifact, "unknown-maven-artifact"@)),
                        version,
                        manifest,
                    ),
                ),
            },
        },
    }
}

/// Reads a `pom.xml`.
pub fn parse_maven(contents: &str, manifest: &str) -> (r: Result<Package, InspectError>)
    ensures
        built_outcome(r) == spec_parse_maven(contents@, manifest@),
{
    let artifact = xml_tag(contents, "artifactId")?;
    let artifact = string_or(artifact, "unknown-maven-artifact");
    let group = xml_tag(contents, "groupId")?;
    let name = maven_coordinates(group, artifact);
    let version = xml_tag(contents, "version")?;
    Ok(publishable_package(Registry::MavenCentral, name, version, manifest))
}

/// What a Gradle build says: a Maven Central package named from its `group`
/// and `archivesBaseName` or `rootProject.name` settings.
pub open spec fn spec_parse_gradle(text: Seq<char>, manifest: Seq<char>) -> Result<
    PackageModel,
    InspectErrorModel,
> {
    match spec_capture(GRADLE_GROUP_PATTERN@, text) {
        Err(e) => Err(e),
        Ok(group) => match spec_capture(GRADLE_ARTIFACT_PATTERN@, text) {
            Err(e) => Err(e),
            Ok(artifact) => match spec_capture(GRADLE_VERSION_PATTERN@, text) {
                Err(e) => Err(e),
                Ok(version) => Ok(
                    package_model(
                        Registry::MavenCentral,
                        maven_name(group, text_or(artifact, "gradle-project"@)),
                        version,
                        manifest,
                    ),
                ),
            },
        },
    }
}

/// Reads a `build.gradle` or `build.gradle.kts`.
pub fn parse_gradle(contents: &str, manifest: &str) -> (r: Result<Package, InspectError>)
    ensures
        built_outcome(r) == spec_parse_gradle(contents@, manifest@),
{
    let group = regex_capture(contents, GRADLE_GROUP_PATTERN)?;
    let artifact = regex_capture(contents, GRADLE_ARTIFACT_PATTERN)?;
    let artifact = string_or(artifact, "gradle-project");
    let name = maven_coordinates(group, artifact);
    let version = regex_capture(contents, GRADLE_VERSION_PATTERN)?;
    Ok(publishable_package(Registry::MavenCentral, name, version, manifest))
}

// ---------------------------------------------------------------------------
// Go modules
// ---------------------------------------------------------------------------

/// The length of the first line of `s` (up to the first `\n`).
pub open spec fn line_end(s: Seq<char>) -> int
    decreases s.len(),
{
    if s.len() == 0 || s[0] == '\n' {
        0
    } else {
        1 + line_end(s.drop_first())
    }
}

pub proof fn lemma_line_end_bounds(s: Seq<char>)
    ensures
        0 <= line_end(s) <= s.len(),
    decreases s.len(),
{
    if s.len() > 0 && s[0] != '\n' {
        lemma_line_end_bounds(s.drop_first());
    }
}

proof fn lemma_line_end_is(s: Seq<char>, e: int)
    requires
        0 <= e <= s.len(),
        forall|k: int| 0 <= k < e ==> s[k] != '\n',
        e == s.len() || s[e] == '\n',
    ensures
        line_end(s) == e,
    decreases s.len(),
{
    if s.len() > 0 && s[0] != '\n' {
        lemma_line_end_is(s.drop_first(), e - 1);
    }
}

/// The module path declared by the first `module ...` line of a `go.mod`.
pub open spec fn go_module_path(text: Seq<char>) -> Option<Seq<char>>
    decreases text.len(),
{
    let line = trim(text.take(line_end(text)));
    if starts_with(line, "module "@) {
        Some(trim(line.skip("module "@.len() as int)))
    } else if line_end(text) < text.len() {
        proof {
            lemma_line_end_bounds(text);
        }
        go_module_path(text.skip(line_end(text) + 1))
    } else {
        None
    }
}

/// What a `go.mod` says: a Go module named by its `module` line, or
/// `unknown-go-module`.
pub open spec fn spec_parse_go(text: Seq<char>, manifest: Seq<char>) -> PackageModel {
    package_model(
        Registry::GoModules,
        text_or(go_module_path(text), "unknown-go-module"@),
        None,
        manifest,
    )
}

fn go_module(contents: &str) -> (r: Option<String>)
    ensures
        opt_text(r) == go_module_path(contents@),
{
    proof {
        reveal_strlit("module ");
    }
    let cs = chars_of(contents);
    let prefix = chars_of("module ");
    let mut i: usize = 0;
    assert(cs@.skip(0) =~= cs@);
    while i <= cs.len()
        invariant
            cs@ == contents@,
            prefix@ == "module "@,
            i <= cs@.len(),
            go_module_path(cs@) == go_module_path(cs@.skip(i as int)),
        decreases cs@.len() - i,
    {
        proof {
            reveal_strlit("module ");
        }
        let ghost rest = cs@.skip(i as int);
        let e = match index_of_from(&cs, '\n', i) {
            Some(e) => e,
            None => cs.len(),
        };
        proof {
            assert forall|k: int| 0 <= k < e - i implies rest[k] != '\n' by {
                assert(rest[k] == cs@[i + k]);
            }
            lemma_line_end_is(rest, e - i);
            assert(rest.take(e - i) =~= cs@.subrange(i as int, e as int));
        }
        let (a, b) = trim_range(&cs, i, e);
        let ghost line = cs@.subrange(a as int, b as int);
        assert(trim(rest.take(line_end(rest))) == line);
        if b - a >= 7 && matches_at(&cs, &prefix, a) {
            assert(line.take(7) =~= cs@.subrange(a as int, a + 7));
            assert(line.skip(7) =~= cs@.subrange(a + 7, b as int));
            assert(starts_with(line, "module "@));
            let (c, d) = trim_range(&cs, a + 7, b);
            let found = text_of_range(&cs, c, d);
            assert(go_module_path(rest) == Some(trim(line.skip(7))));
            return Some(found);
        }
        proof {
            if starts_with(line, "module "@) {
                assert(line.len() >= 7);
                assert(line.take(7) =~= cs@.subrange(a as int, a + 7));
                assert(occurs_at(cs@, prefix@, a as int));
            }
        }
        if e >= cs.len() {
            return None;
        }
        assert(rest.skip(e - i + 1) =~= cs@.skip(e + 1));
        i = e + 1;
    }
    None
}

/// Reads a `go.mod`.
pub fn parse_go(contents: &str, manifest: &str) -> (p: Package)
    ensures
        p@ == spec_parse_go(contents@, manifest@),
{
    let name = string_or(go_module(contents), "unknown-go-module");
    publishable_package(Registry::GoModules, name, None, manifest)
}

// ---------------------------------------------------------------------------
// File names
// ---------------------------------------------------------------------------

/// The last `/`-separated component of a path.
pub open spec fn spec_file_name(path: Seq<char>) -> Seq<char> {
    path.skip(last_index(path, '/') + 1)
}

/// `Path::extension`: the text after the last `.`, unless that `.` starts
/// the name.
pub open spec fn spec_extension(name: Seq<char>) -> Option<Seq<char>> {
    if last_index(name, '.') > 0 {
        Some(name.skip(last_index(name, '.') + 1))
    } else {
        None
    }
}

/// `Path::file_stem`: the name without its extension.
pub open spec fn spec_file_stem(name: Seq<char>) -> Seq<char> {
    if last_index(name, '.') > 0 {
        name.take(last_index(name, '.'))
    } else {
        name
    }
}

fn file_name_chars(path: &Vec<char>) -> (r: Vec<char>)
    ensures
        r@ == spec_file_name(path@),
{
    let start = match last_index_of(path, '/') {
        Some(i) => i + 1,
        None => 0,
    };
    let mut out: Vec<char> = Vec::new();
    for k in start..path.len()
        invariant
            start == last_index(path@, '/') + 1,
            out@ == path@.subrange(start as int, k as int),
    {
        out.push(path[k]);
        assert(out@ =~= path@.subrange(start as int, k + 1));
    }
    assert(path@.subrange(start as int, path@.len() as int) =~= path@.skip(start as int));
    out
}

/// Whether `name` has one of the .NET project extensions.
pub open spec fn is_dotnet_project(name: Seq<char>) -> bool {
    spec_extension(name) == Some("csproj"@) || spec_extension(name) == Some("fsproj"@)
        || spec_extension(name) == Some("vbproj"@)
}

fn has_dotnet_extension(name: &Vec<char>) -> (r: bool)
    ensures
        r == is_dotnet_project(name@),
{
    match last_index_of(name, '.') {
        Some(i) => {
            if i == 0 {
                return false;
            }
            assert(name@.len() == name.len());
            let ext = text_of_range(name, i + 1, name.len());
            assert(ext@ =~= name@.skip(i + 1));
            text_eq(ext.as_str(), "csproj") || text_eq(ext.as_str(), "fsproj") || text_eq(
                ext.as_str(),
                "vbproj",
            )
        },
        None => false,
    }
}

/// The manifest file names that discovery recognizes.
pub open spec fn is_manifest_name(name: Seq<char>) -> bool {
    ||| name == "package.json"@
    ||| name == "Cargo.toml"@
    ||| name == "pyproject.toml"@
    ||| name == "setup.py"@
    ||| name == "go.mod"@
    ||| name == "pom.xml"@
    ||| name == "build.gradle"@
    ||| name == "build.gradle.kts"@
    ||| name == "composer.json"@
    ||| is_dotnet_project(name)
}

/// Whether a file named `file_name` is a package manifest.
pub fn is_manifest(file_name: &str) -> (r: bool)
    ensures
        r == is_manifest_name(file_name@),
{
    let cs = chars_of(file_name);
    text_eq(file_name, "package.json") || text_eq(file_name, "Cargo.toml") || text_eq(
        file_name,
        "pyproject.toml",
    ) || text_eq(file_name, "setup.py") || text_eq(file_name, "go.mod") || text_eq(
        file_name,
        "pom.xml",
    ) || text_eq(file_name, "build.gradle") || text_eq(file_name, "build.gradle.kts") || text_eq(
        file_name,
        "composer.json",
    ) || has_dotnet_extension(&cs)
}

/// Directories that hold generated or third-party files and are never
/// searched for manifests.
pub open spec fn is_ignored_directory_name(name: Seq<char>) -> bool {
    ||| name == ".git"@
    ||| name == ".package-registry-manager"@
    ||| name == ".venv"@
    ||| name == "node_modules"@
    ||| name == "target"@
    ||| name == "vendor"@
}

/// Whether discovery skips a directory named `name`.
pub fn is_ignored_directory(name: &str) -> (r: bool)
    ensures
        r == is_ignored_directory_name(name@),
{
    text_eq(name, ".git") || text_eq(name, ".package-registry-manager") || text_eq(name, ".venv")
        || text_eq(name, "node_modules") || text_eq(name, "target") || text_eq(name, "vendor")
}

// ---------------------------------------------------------------------------
// .NET projects
// ---------------------------------------------------------------------------

/// The package name of a .NET project: `PackageId`, else `AssemblyName`,
/// else the project file's stem.
pub open spec fn dotnet_name(text: Seq<char>, fallback: Seq<char>) -> Result<
    Seq<char>,
    InspectErrorModel,
> {
    match spec_xml_tag(text, "PackageId"@) {
        Err(e) => Err(e),
        Ok(Some(n)) => Ok(n),
        Ok(None) => match spec_xml_tag(text, "AssemblyName"@) {
            Err(e) => Err(e),
            Ok(Some(n)) => Ok(n),
            Ok(None) => Ok(fallback),
        },
    }
}

/// The package version of a .NET project: `PackageVersion`, else `Version`.
pub open spec fn dotnet_version(text: Seq<char>) -> Result<Option<Seq<char>>, InspectErrorModel> {
    match spec_xml_tag(text, "PackageVersion"@) {
        Err(e) => Err(e),
        Ok(Some(v)) => Ok(Some(v)),
        Ok(None) => spec_xml_tag(text, "Version"@),
    }
}

/// What a `.csproj`, `.fsproj` or `.vbproj` says: a NuGet package.
pub open spec fn spec_parse_dotnet(text: Seq<char>, manifest: Seq<char>) -> Result<
    PackageModel,
    InspectErrorModel,
> {
    match dotnet_name(text, spec_file_stem(spec_file_name(manifest))) {
        Err(e) => Err(e),
        Ok(name) => match dotnet_version(text) {
            Err(e) => Err(e),
            Ok(version) => Ok(package_model(Registry::NuGet, name, version, manifest)),
        },
    }
}

/// How a .NET project names its package: by the trimmed text of its
/// `<PackageId>` element whenever it has one, whatever `<AssemblyName>` says;
/// by `<AssemblyName>` only without a `<PackageId>`; and by the file stem of
/// the project only without either. Its version is `<PackageVersion>`, else
/// `<Version>`. The package is a publishable NuGet package read from
/// `manifest`.
pub proof fn lemma_dotnet_package_id_wins(text: Seq<char>, manifest: Seq<char>)
    ensures
        spec_parse_dotnet(text, manifest) matches Ok(p) ==> {
            &&& p.registry == Registry::NuGet
            &&& p.manifest == manifest
            &&& p.publishable
            &&& (spec_xml_tag(text, "PackageId"@) matches Ok(Some(id)) ==> p.name == id)
            &&& (spec_xml_tag(text, "PackageId"@) == Ok::<Option<Seq<char>>, InspectErrorModel>(None)
                ==> match spec_xml_tag(text, "AssemblyName"@) {
                Ok(Some(assembly)) => p.name == assembly,
                _ => p.name == spec_file_stem(spec_file_name(manifest)),
            })
            &&& (spec_xml_tag(text, "PackageVersion"@) matches Ok(Some(v)) ==> p.version == Some(v))
            &&& (spec_xml_tag(text, "PackageVersion"@) == Ok::<Option<Seq<char>>, InspectErrorModel>(
                None,
            ) ==> spec_xml_tag(text, "Version"@) == Ok::<Option<Seq<char>>, InspectErrorModel>(
                p.version,
            ))
        },
        spec_xml_tag(text, "PackageId"@) matches Ok(Some(id)) ==> (spec_parse_dotnet(text, manifest) is Ok
            <==> dotnet_version(text) is Ok),
{
}

fn file_stem_of(manifest: &str) -> (r: String)
    ensures
        r@ == spec_file_stem(spec_file_name(manifest@)),
{
    let cs = chars_of(manifest);
    let name = file_name_chars(&cs);
    match last_index_of(&name, '.') {
        Some(i) => {
            if i > 0 {
                text_of_range(&name, 0, i)
            } else {
                assert(name@.subrange(0, name@.len() as int) =~= name@);
                text_of_range(&name, 0, name.len())
            }
        },
        None => {
            assert(name@.subrange(0, name@.len() as int) =~= name@);
            text_of_range(&name, 0, name.len())
        },
    }
}

/// Reads a .NET project file.
pub fn parse_dotnet(contents: &str, manifest: &str) -> (r: Result<Package, InspectError>)
    ensures
        built_outcome(r) == spec_parse_dotnet(contents@, manifest@),
{
    let name = match xml_tag(contents, "PackageId")? {
        Some(n) => n,
        None => match xml_tag(contents, "AssemblyName")? {
            Some(n) => n,
            None => file_stem_of(manifest),
        },
    };
    let version = match xml_tag(contents, "PackageVersion")? {
        Some(v) => Some(v),
        None => xml_tag(contents, "Version")?,
    };
    Ok(publishable_package(Registry::NuGet, name, version, manifest))
}

// ---------------------------------------------------------------------------
// Any manifest
// ---------------------------------------------------------------------------

pub open spec fn some_built(r: Result<PackageModel, InspectErrorModel>) -> Result<
    Option<PackageModel>,
    InspectErrorModel,
> {
    match r {
        Ok(p) => Ok(Some(p)),
        Err(e) => Err(e),
    }
}

/// What the manifest at `manifest` (a `/`-separated path relative to the
/// repository root) with contents `text` says about its package.
pub open spec fn spec_parse_manifest(manifest: Seq<char>, text: Seq<char>) -> Result<
    Option<PackageModel>,
    InspectErrorModel,
> {
    let name = spec_file_name(manifest);
    if name == "package.json"@ {
        spec_parse_npm(text, manifest)
    } else if name == "Cargo.toml"@ {
        spec_parse_cargo(text, manifest)
    } else if name == "pyproject.toml"@ {
        spec_parse_pyproject(text, manifest)
    } else if name == "setup.py"@ {
        some_built(spec_parse_setup_py(text, manifest))
    } else if name == "go.mod"@ {
        Ok(Some(spec_parse_go(text, manifest)))
    } else if name == "pom.xml"@ {
        some_built(spec_parse_maven(text, manifest))
    } else if name == "build.gradle"@ || name == "build.gradle.kts"@ {
        some_built(spec_parse_gradle(text, manifest))
    } else if name == "composer.json"@ {
        spec_parse_composer(text, manifest)
    } else if is_dotnet_project(name) {
        some_built(spec_parse_dotnet(text, manifest))
    } else {
        Ok(None)
    }
}

fn some_package(r: Result<Package, InspectError>) -> (o: Result<Option<Package>, InspectError>)
    ensures
        package_outcome(o) == some_built(built_outcome(r)),
{
    match r {
        Ok(p) => Ok(Some(p)),
        Err(e) => Err(e),
    }
}

/// Reads the manifest at `manifest`, a `/`-separated path relative to the
/// repository root, whose contents are `contents`.
pub fn parse_manifest(manifest: &str, contents: &str) -> (r: Result<Option<Package>, InspectError>)
    ensures
        package_outcome(r) == spec_parse_manifest(manifest@, contents@),
{
    let cs = chars_of(manifest);
    let name_chars = file_name_chars(&cs);
    let name_text = text_of_range(&name_chars, 0, name_chars.len());
    assert(name_chars@.subrange(0, name_chars@.len() as int) =~= name_chars@);
    let name = name_text.as_str();
    if text_eq(name, "package.json") {
        parse_npm(contents, manifest)
    } else if text_eq(name, "Cargo.toml") {
        parse_cargo(contents, manifest)
    } else if text_eq(name, "pyproject.toml") {
        parse_pyproject(contents, manifest)
    } else if text_eq(name, "setup.py") {
        some_package(parse_setup_py(contents, manifest))
    } else if text_eq(name, "go.mod") {
        Ok(Some(parse_go(contents, manifest)))
    } else if text_eq(name, "pom.xml") {
        some_package(parse_maven(contents, manifest))
    } else if text_eq(name, "build.gradle") || text_eq(name, "build.gradle.kts") {
        some_package(parse_gradle(contents, manifest))
    } else if text_eq(name, "composer.json") {
        parse_composer(contents, manifest)
    } else if has_dotnet_extension(&name_chars) {
        some_package(parse_dotnet(contents, manifest))
    } else {
        Ok(None)
    }
}

// ---------------------------------------------------------------------------
// GitHub coordinates
// ---------------------------------------------------------------------------

/// A remote URL rewritten to the `https://github.com/` form: trailing `.git`
/// and leading `git+` removed, SSH forms replaced.
pub open spec fn normalize_remote(remote: Seq<char>) -> Seq<char> {
    replace_all(
        replace_all(
            trim_start_matches(trim_end_matches(remote, ".git"@), "git+"@),
            "git@github.com:"@,
            "https://github.com/"@,
        ),
        "ssh://git@github.com/"@,
        "https://github.com/"@,
    )
}

/// The first two `/`-separated segments of `path`.
pub open spec fn first_two_segments(path: Seq<char>) -> (Option<Seq<char>>, Option<Seq<char>>) {
    let i = index_or_len(path, '/');
    (
        Some(path.take(i)),
        if i < path.len() {
            let rest = path.skip(i + 1);
            Some(rest.take(index_or_len(rest, '/')))
        } else {
            None
        },
    )
}

/// The owner and repository of a GitHub remote URL; `None` for a remote that
/// is not on GitHub.
pub open spec fn spec_parse_github_url(remote: Seq<char>) -> Option<
    (Option<Seq<char>>, Option<Seq<char>>),
> {
    match strip_prefix(normalize_remote(remote), "https://github.com/"@) {
        None => None,
        Some(path) => Some(first_two_segments(path)),
    }
}

pub open spec fn coordinates_view(c: Option<(Option<String>, Option<String>)>) -> Option<
    (Option<Seq<char>>, Option<Seq<char>>),
> {
    match c {
        Some((owner, repository)) => Some((opt_text(owner), opt_text(repository))),
        None => None,
    }
}

/// The segment of `cs` that starts at `from` and ends before the next `/`.
fn segment_from(cs: &Vec<char>, from: usize) -> (r: (String, usize))
    requires
        from <= cs@.len(),
    ensures
        from <= r.1 <= cs@.len(),
        r.1 - from == index_or_len(cs@.skip(from as int), '/'),
        r.0@ == cs@.skip(from as int).take(r.1 - from),
{
    let end = match index_of_from(cs, '/', from) {
        Some(e) => e,
        None => cs.len(),
    };
    proof {
        let rest = cs@.skip(from as int);
        assert forall|k: int| 0 <= k < end - from implies rest[k] != '/' by {
            assert(rest[k] == cs@[from + k]);
        }
        lemma_index_or_len_is(rest, '/', end - from);
        assert(rest.take(end - from) =~= cs@.subrange(from as int, end as int));
    }
    (text_of_range(cs, from, end), end)
}

/// Reads the GitHub owner and repository from a remote URL such as
/// `git@github.com:acme/widgets.git` or `git+https://github.com/acme/widgets`.
pub fn parse_github_url(remote: &str) -> (r: Option<(Option<String>, Option<String>)>)
    ensures
        coordinates_view(r) == spec_parse_github_url(remote@),
{
    let cs = chars_of(remote);
    let dot_git = chars_of(".git");
    let git_plus = chars_of("git+");
    let scp = chars_of("git@github.com:");
    let ssh = chars_of("ssh://git@github.com/");
    let https = chars_of("https://github.com/");
    proof {
        reveal_strlit(".git");
        reveal_strlit("git+");
        reveal_strlit("git@github.com:");
        reveal_strlit("ssh://git@github.com/");
        reveal_strlit("https://github.com/");
    }
    let n = trim_end_matches_len(&cs, &dot_git);
    let trimmed = chars_range(&cs, 0, n);
    assert(trimmed@ =~= cs@.take(n as int));
    let k = trim_start_matches_from(&trimmed, &git_plus, 0);
    assert(trimmed@.skip(0) =~= trimmed@);
    let bare = chars_range(&trimmed, k, trimmed.len());
    assert(bare@ =~= trimmed@.skip(k as int));
    let once = replace_chars(&bare, &scp, &https);
    let normalized = replace_chars(&once, &ssh, &https);
    assert(normalized@ == normalize_remote(remote@));
    if !matches_at(&normalized, &https, 0) {
        proof {
            if starts_with(normalized@, https@) {
                assert(normalized@.take(https@.len() as int) =~= normalized@.subrange(
                    0,
                    https@.len() as int,
                ));
            }
        }
        return None;
    }
    let start = https.len();
    assert(normalized@.take(https@.len() as int) =~= normalized@.subrange(0, https@.len() as int));
    let ghost path = normalized@.skip(start as int);
    let (owner, end) = segment_from(&normalized, start);
    if end < normalized.len() {
        let (repository, _) = segment_from(&normalized, end + 1);
        assert(path.skip(end - start + 1) =~= normalized@.skip(end + 1));
        Some((Some(owner), Some(repository)))
    } else {
        Some((Some(owner), None))
    }
}

// ---------------------------------------------------------------------------
// Files handed to inspection
// ---------------------------------------------------------------------------

/// A manifest file: its `/`-separated path relative to the repository root,
/// and its contents.
#[derive(Debug, Clone, PartialEq, Eq)]
pub struct ManifestFile {
    pub path: String,
    pub contents: String,
}

/// A file of `.github/workflows`: its file name and contents.
#[derive(Debug, Clone, PartialEq, Eq)]
pub struct WorkflowFile {
    pub name: String,
    pub contents: String,
}

/// Manifests are taken in path order, component by component.
impl SortKey for ManifestFile {
    open spec fn key_le(&self, other: &Self) -> bool {
        text_le(self.path@, other.path@, true)
    }

    proof fn lemma_key_total(a: &Self, b: &Self) {
        lemma_text_le_total(a.path@, b.path@, true);
    }

    proof fn lemma_key_transitive(a: &Self, b: &Self, c: &Self) {
        lemma_text_le_transitive(a.path@, b.path@, c.path@, true);
    }

    fn le(&self, other: &Self) -> (r: bool) {
        let a = chars_of(self.path.as_str());
        let b = chars_of(other.path.as_str());
        chars_le(&a, &b, true)
    }
}

/// Workflow files are taken in file-name order.
impl SortKey for WorkflowFile {
    open spec fn key_le(&self, other: &Self) -> bool {
        text_le(self.name@, other.name@, false)
    }

    proof fn lemma_key_total(a: &Self, b: &Self) {
        lemma_text_le_total(a.name@, b.name@, false);
    }

    proof fn lemma_key_transitive(a: &Self, b: &Self, c: &Self) {
        lemma_text_le_transitive(a.name@, b.name@, c.name@, false);
    }

    fn le(&self, other: &Self) -> (r: bool) {
        let a = chars_of(self.name.as_str());
        let b = chars_of(other.name.as_str());
        chars_le(&a, &b, false)
    }
}

/// The order of inspected packages: by registry, then manifest path, then
/// name.
pub open spec fn package_le(a: PackageModel, b: PackageModel) -> bool {
    ||| crate::model::registry_rank(a.registry) < crate::model::registry_rank(b.registry)
    ||| crate::model::registry_rank(a.registry) == crate::model::registry_rank(b.registry) && (
    a.manifest != b.manifest && text_le(a.manifest, b.manifest, false) || a.manifest == b.manifest
        && text_le(a.name, b.name, false))
}

fn registry_rank_of(r: Registry) -> (n: u8)
    ensures
        n == crate::model::registry_rank(r),
{
    match r {
        Registry::Npm => 0,
        Registry::CratesIo => 1,
        Registry::PyPi => 2,
        Registry::GoModules => 3,
        Registry::NuGet => 4,
        Registry::MavenCentral => 5,
        Registry::Packagist => 6,
    }
}

impl SortKey for Package {
    open spec fn key_le(&self, other: &Self) -> bool {
        package_le(self@, other@)
    }

    proof fn lemma_key_total(a: &Self, b: &Self) {
        lemma_text_le_total(a.manifest@, b.manifest@, false);
        lemma_text_le_total(a.name@, b.name@, false);
    }

    proof fn lemma_key_transitive(a: &Self, b: &Self, c: &Self) {
        lemma_text_le_total(a.manifest@, b.manifest@, false);
        if text_le(a.manifest@, b.manifest@, false) && text_le(b.manifest@, a.manifest@, false) {
            lemma_text_le_antisymmetric(a.manifest@, b.manifest@, false);
        }
        if text_le(b.manifest@, c.manifest@, false) && text_le(c.manifest@, b.manifest@, false) {
            lemma_text_le_antisymmetric(b.manifest@, c.manifest@, false);
        }
        if text_le(a.manifest@, c.manifest@, false) && text_le(c.manifest@, a.manifest@, false) {
            lemma_text_le_antisymmetric(a.manifest@, c.manifest@, false);
        }
        if text_le(a.manifest@, b.manifest@, false) && text_le(b.manifest@, c.manifest@, false) {
            lemma_text_le_transitive(a.manifest@, b.manifest@, c.manifest@, false);
        }
        if text_le(a.name@, b.name@, false) && text_le(b.name@, c.name@, false) {
            lemma_text_le_transitive(a.name@, b.name@, c.name@, false);
        }
        if text_le(c.manifest@, a.manifest@, false) && text_le(a.manifest@, b.manifest@, false) {
            lemma_text_le_transitive(c.manifest@, a.manifest@, b.manifest@, false);
        }
        if text_le(b.manifest@, c.manifest@, false) && text_le(c.manifest@, a.manifest@, false) {
            lemma_text_le_transitive(b.manifest@, c.manifest@, a.manifest@, false);
        }
    }

    fn le(&self, other: &Self) -> (r: bool) {
        let ra = registry_rank_of(self.registry);
        let rb = registry_rank_of(other.registry);
        if ra != rb {
            return ra < rb;
        }
        if text_eq(self.manifest.as_str(), other.manifest.as_str()) {
            let a = chars_of(self.name.as_str());
            let b = chars_of(other.name.as_str());
            chars_le(&a, &b, false)
        } else {
            let a = chars_of(self.manifest.as_str());
            let b = chars_of(other.manifest.as_str());
            chars_le(&a, &b, false)
        }
    }
}

// ---------------------------------------------------------------------------
// Release workflow
// ---------------------------------------------------------------------------

/// Whether a workflow file name ends in `.yml` or `.yaml`.
pub open spec fn is_workflow_name(name: Seq<char>) -> bool {
    spec_extension(name) == Some("yml"@) || spec_extension(name) == Some("yaml"@)
}

/// Whether a workflow runs `npm publish` (or `npm stage publish`).
pub open spec fn publishes_to_npm(contents: Seq<char>) -> bool {
    contains_text(contents, "npm publish"@) || contains_text(contents, "npm stage publish"@)
}

/// Among `files`, in order: the first workflow that publishes to npm, or
/// else the first whose name contains `release` (after `fallback`).
pub open spec fn pick_workflow(files: Seq<WorkflowFile>, fallback: Option<Seq<char>>) -> Option<
    Seq<char>,
>
    decreases files.len(),
{
    if files.len() == 0 {
        fallback
    } else {
        let f = files[0];
        if !is_workflow_name(f.name@) {
            pick_workflow(files.drop_first(), fallback)
        } else if publishes_to_npm(f.contents@) {
            Some(f.name@)
        } else {
            pick_workflow(
                files.drop_first(),
                if fallback is None && contains_text(f.name@, "release"@) {
                    Some(f.name@)
                } else {
                    fallback
                },
            )
        }
    }
}

/// A workflow file (`.yml` or `.yaml`) that runs `npm publish` or
/// `npm stage publish`.
pub open spec fn runs_npm_publish(f: WorkflowFile) -> bool {
    &&& is_workflow_name(f.name@)
    &&& (contains_text(f.contents@, "npm publish"@) || contains_text(
        f.contents@,
        "npm stage publish"@,
    ))
}

/// A workflow file (`.yml` or `.yaml`) whose name contains `release`.
pub open spec fn is_release_named(f: WorkflowFile) -> bool {
    is_workflow_name(f.name@) && contains_text(f.name@, "release"@)
}

proof fn lemma_pick_first_publisher(files: Seq<WorkflowFile>, fallback: Option<Seq<char>>, k: int)
    requires
        0 <= k < files.len(),
        runs_npm_publish(files[k]),
        forall|j: int| 0 <= j < k ==> !runs_npm_publish(#[trigger] files[j]),
    ensures
        pick_workflow(files, fallback) == Some(files[k].name@),
    decreases k,
{
    if k > 0 {
        let rest = files.drop_first();
        assert(!runs_npm_publish(files[0]));
        assert forall|j: int| 0 <= j < k - 1 implies !runs_npm_publish(#[trigger] rest[j]) by {
            assert(rest[j] == files[j + 1]);
        }
        assert(rest[k - 1] == files[k]);
        let next = if fallback is None && contains_text(files[0].name@, "release"@) {
            Some(files[0].name@)
        } else {
            fallback
        };
        lemma_pick_first_publisher(rest, fallback, k - 1);
        lemma_pick_first_publisher(rest, next, k - 1);
    }
}

proof fn lemma_pick_without_publisher(files: Seq<WorkflowFile>, fallback: Option<Seq<char>>)
    requires
        forall|j: int| 0 <= j < files.len() ==> !runs_npm_publish(#[trigger] files[j]),
    ensures
        fallback is Some ==> pick_workflow(files, fallback) == fallback,
        fallback is None ==> match pick_workflow(files, fallback) {
            Some(n) => exists|k: int|
                0 <= k < files.len() && is_release_named(#[trigger] files[k]) && files[k].name@ == n
                    && forall|j: int| 0 <= j < k ==> !is_release_named(#[trigger] files[j]),
            None => forall|j: int| 0 <= j < files.len() ==> !is_release_named(#[trigger] files[j]),
        },
    decreases files.len(),
{
    if files.len() > 0 {
        let rest = files.drop_first();
        assert forall|j: int| 0 <= j < rest.len() implies !runs_npm_publish(#[trigger] rest[j]) by {
            assert(rest[j] == files[j + 1]);
        }
        assert(!runs_npm_publish(files[0]));
        let f = files[0];
        let next = if fallback is None && is_workflow_name(f.name@) && contains_text(
            f.name@,
            "release"@,
        ) {
            Some(f.name@)
        } else {
            fallback
        };
        lemma_pick_without_publisher(rest, next);
        assert(pick_workflow(files, fallback) == pick_workflow(rest, next));
        if fallback is None {
            if is_release_named(f) {
                assert(pick_workflow(files, fallback) == Some(f.name@));
                assert(forall|j: int| 0 <= j < 0 ==> !is_release_named(#[trigger] files[j]));
            } else {
                match pick_workflow(rest, next) {
                    Some(n) => {
                        let k = choose|k: int|
                            0 <= k < rest.len() && is_release_named(#[trigger] rest[k])
                                && rest[k].name@ == n && forall|j: int|
                                0 <= j < k ==> !is_release_named(#[trigger] rest[j]);
                        assert(files[k + 1] == rest[k]);
                        assert forall|j: int| 0 <= j < k + 1 implies !is_release_named(
                            #[trigger] files[j],
                        ) by {
                            if j > 0 {
                                assert(files[j] == rest[j - 1]);
                            }
                        }
                    },
                    None => {
                        assert forall|j: int| 0 <= j < files.len() implies !is_release_named(
                            #[trigger] files[j],
                        ) by {
                            if j > 0 {
                                assert(files[j] == rest[j - 1]);
                            }
                        }
                    },
                }
            }
        }
    }
}

/// The release workflow named for npm trusted publishing is one that
/// publishes to npm whenever there is one: among the workflow files in the
/// given order, the first that runs `npm publish` (or `npm stage publish`)
/// wins over any workflow named `release`, and a release-named workflow (the
/// first in order) is chosen only when no workflow publishes to npm; with
/// neither, there is none.
pub proof fn lemma_release_workflow_prefers_npm_publish(files: Seq<WorkflowFile>)
    ensures
        forall|k: int|
            0 <= k < files.len() && #[trigger] runs_npm_publish(files[k]) && (forall|j: int|
                0 <= j < k ==> !runs_npm_publish(#[trigger] files[j])) ==> pick_workflow(files, None)
                == Some(files[k].name@),
        (forall|j: int| 0 <= j < files.len() ==> !runs_npm_publish(#[trigger] files[j])) ==> match pick_workflow(
            files,
            None,
        ) {
            Some(n) => exists|k: int|
                0 <= k < files.len() && is_release_named(#[trigger] files[k]) && files[k].name@ == n
                    && forall|j: int| 0 <= j < k ==> !is_release_named(#[trigger] files[j]),
            None => forall|j: int| 0 <= j < files.len() ==> !is_release_named(#[trigger] files[j]),
        },
{
    assert forall|k: int|
        0 <= k < files.len() && #[trigger] runs_npm_publish(files[k]) && (forall|j: int|
            0 <= j < k ==> !runs_npm_publish(#[trigger] files[j])) implies pick_workflow(files, None)
        == Some(files[k].name@) by {
        lemma_pick_first_publisher(files, None, k);
    }
    if forall|j: int| 0 <= j < files.len() ==> !runs_npm_publish(#[trigger] files[j]) {
        lemma_pick_without_publisher(files, None);
    }
}

/// Whether a file of `.github/workflows` is a workflow definition, and so is
/// read by [`release_workflow`].
pub fn is_workflow_file(name: &str) -> (r: bool)
    ensures
        r == is_workflow_name(name@),
{
    let cs = chars_of(name);
    match last_index_of(&cs, '.') {
        Some(i) => {
            if i == 0 {
                return false;
            }
            assert(cs@.len() == cs.len());
            let ext = text_of_range(&cs, i + 1, cs.len());
            assert(ext@ =~= cs@.skip(i + 1));
            text_eq(ext.as_str(), "yml") || text_eq(ext.as_str(), "yaml")
        },
        None => false,
    }
}

fn pick_from(files: &Vec<WorkflowFile>) -> (r: Option<String>)
    ensures
        opt_text(r) == pick_workflow(files@, None),
{
    let mut fallback: Option<String> = None;
    let mut i: usize = 0;
    assert(files@.skip(0) =~= files@);
    while i < files.len()
        invariant
            i <= files@.len(),
            pick_workflow(files@, None) == pick_workflow(files@.skip(i as int), opt_text(fallback)),
        decreases files@.len() - i,
    {
        let f = &files[i];
        assert(files@.skip(i as int).drop_first() =~= files@.skip(i + 1));
        if is_workflow_file(f.name.as_str()) {
            if text_contains(f.contents.as_str(), "npm publish") || text_contains(
                f.contents.as_str(),
                "npm stage publish",
            ) {
                return Some(f.name.clone());
            }
            if fallback.is_none() && text_contains(f.name.as_str(), "release") {
                fallback = Some(f.name.clone());
            }
        }
        i = i + 1;
    }
    fallback
}

/// The release workflow that npm trusted publishing should name: among the
/// workflow files in name order, the first that runs `npm publish`, else the
/// first whose name contains `release`.
pub fn release_workflow(files: Vec<WorkflowFile>) -> (r: Option<String>)
    ensures
        exists|sorted: Seq<WorkflowFile>|
            sorted.to_multiset() == files@.to_multiset() && is_sorted(sorted) && opt_text(r)
                == pick_workflow(sorted, None),
{
    let sorted = insertion_sort(files);
    pick_from(&sorted)
}

// ---------------------------------------------------------------------------
// Repository coordinates
// ---------------------------------------------------------------------------

/// The `repository` (or `repository.url`) string of a `package.json`.
pub open spec fn npm_repository(text: Seq<char>) -> Option<Seq<char>> {
    let key = "repository"@;
    if !json_has_member(text, seq![], key) {
        None
    } else {
        match json_str_at(text, seq![key]) {
            Some(url) => Some(url),
            None => if json_has_member(text, seq![key], "url"@) {
                json_str_at(text, seq![key, "url"@])
            } else {
                None
            },
        }
    }
}

/// The repository URL a manifest declares, for `package.json` and
/// `Cargo.toml`.
pub open spec fn manifest_repository(m: ManifestFile) -> Result<
    Option<Seq<char>>,
    InspectErrorModel,
> {
    let name = spec_file_name(m.path@);
    let text = m.contents@;
    if name == "package.json"@ {
        if !json_parses(text) {
            Err(InspectErrorModel::InvalidJson(m.path@))
        } else {
            Ok(npm_repository(text))
        }
    } else if name == "Cargo.toml"@ {
        if !toml_parses(text) {
            Err(InspectErrorModel::InvalidToml(m.path@))
        } else if toml_has_member(text, seq![], "package"@) {
            Ok(toml_get_str(text, seq!["package"@], "repository"@))
        } else {
            Ok(None)
        }
    } else {
        Ok(None)
    }
}

/// The coordinates from the first manifest, in order, whose repository URL is
/// a GitHub URL; unknown when there is none.
pub open spec fn coordinates_from_manifests(manifests: Seq<ManifestFile>) -> Result<
    (Option<Seq<char>>, Option<Seq<char>>),
    InspectErrorModel,
>
    decreases manifests.len(),
{
    if manifests.len() == 0 {
        Ok((None, None))
    } else {
        match manifest_repository(manifests[0]) {
            Err(e) => Err(e),
            Ok(Some(url)) => match spec_parse_github_url(url) {
                Some(c) => Ok(c),
                None => coordinates_from_manifests(manifests.drop_first()),
            },
            Ok(None) => coordinates_from_manifests(manifests.drop_first()),
        }
    }
}

/// The GitHub owner and repository: from the first `url =` line of the Git
/// configuration when it names GitHub, else from the manifests.
pub open spec fn spec_coordinates(git_config: Option<Seq<char>>, manifests: Seq<ManifestFile>) -> Result<
    (Option<Seq<char>>, Option<Seq<char>>),
    InspectErrorModel,
> {
    match git_config {
        Some(config) => match spec_capture(GIT_REMOTE_URL_PATTERN@, config) {
            Err(e) => Err(e),
            Ok(Some(remote)) => match spec_parse_github_url(remote) {
                Some(c) => Ok(c),
                None => coordinates_from_manifests(manifests),
            },
            Ok(None) => coordinates_from_manifests(manifests),
        },
        None => coordinates_from_manifests(manifests),
    }
}

pub open spec fn pair_outcome(r: Result<(Option<String>, Option<String>), InspectError>) -> Result<
    (Option<Seq<char>>, Option<Seq<char>>),
    InspectErrorModel,
> {
    match r {
        Ok((a, b)) => Ok((opt_text(a), opt_text(b))),
        Err(e) => Err(e@),
    }
}

fn repository_of(m: &ManifestFile) -> (r: Result<Option<String>, InspectError>)
    ensures
        text_outcome(r) == manifest_repository(*m),
{
    let cs = chars_of(m.path.as_str());
    let name_chars = file_name_chars(&cs);
    assert(name_chars@.subrange(0, name_chars@.len() as int) =~= name_chars@);
    let name_text = text_of_range(&name_chars, 0, name_chars.len());
    let name = name_text.as_str();
    let text = m.contents.as_str();
    if text_eq(name, "package.json") {
        let doc = match JsonDocument::parse(text) {
            Some(doc) => doc,
            None => {
                return Err(InspectError::InvalidJson { manifest: m.path.clone() });
            },
        };
        let root = doc.root();
        match json_doc::member(&root, "repository") {
            None => Ok(None),
            Some(repository) => {
                assert(repository.path() =~= seq!["repository"@]);
                match json_doc::string_value(&repository) {
                    Some(url) => Ok(Some(url)),
                    None => match json_doc::member(&repository, "url") {
                        Some(url) => {
                            assert(url.path() =~= seq!["repository"@, "url"@]);
                            Ok(json_doc::string_value(&url))
                        },
                        None => Ok(None),
                    },
                }
            },
        }
    } else if text_eq(name, "Cargo.toml") {
        let doc = match TomlDocument::parse(text) {
            Some(doc) => doc,
            None => {
                return Err(InspectError::InvalidToml { manifest: m.path.clone() });
            },
        };
        let root = doc.root();
        match toml_doc::member(&root, "package") {
            Some(package) => {
                assert(package.path() =~= seq!["package"@]);
                Ok(toml_string_in(&package, "repository"))
            },
            None => Ok(None),
        }
    } else {
        Ok(None)
    }
}

fn coordinates_in(manifests: &Vec<ManifestFile>) -> (r: Result<
    (Option<String>, Option<String>),
    InspectError,
>)
    ensures
        pair_outcome(r) == coordinates_from_manifests(manifests@),
{
    let mut i: usize = 0;
    assert(manifests@.skip(0) =~= manifests@);
    while i < manifests.len()
        invariant
            i <= manifests@.len(),
            coordinates_from_manifests(manifests@) == coordinates_from_manifests(
                manifests@.skip(i as int),
            ),
        decreases manifests@.len() - i,
    {
        assert(manifests@.skip(i as int).drop_first() =~= manifests@.skip(i + 1));
        assert(manifests@.skip(i as int)[0] == manifests@[i as int]);
        match repository_of(&manifests[i])? {
            Some(url) => {
                match parse_github_url(url.as_str()) {
                    Some(c) => {
                        return Ok(c);
                    },
                    None => {},
                }
            },
            None => {},
        }
        i = i + 1;
    }
    Ok((None, None))
}

/// The GitHub owner and repository of the repository, from its Git
/// configuration (when readable) or else from its manifests, in order.
pub fn github_coordinates(git_config: Option<&str>, manifests: &Vec<ManifestFile>) -> (r: Result<
    (Option<String>, Option<String>),
    InspectError,
>)
    ensures
        pair_outcome(r) == spec_coordinates(
            match git_config {
                Some(c) => Some(c@),
                None => None,
            },
            manifests@,
        ),
{
    if let Some(config) = git_config {
        if let Some(remote) = regex_capture(config, GIT_REMOTE_URL_PATTERN)? {
            if let Some(c) = parse_github_url(remote.as_str()) {
                return Ok(c);
            }
        }
    }
    coordinates_in(manifests)
}

// ---------------------------------------------------------------------------
// Inspection
// ---------------------------------------------------------------------------

/// The path of the `pyproject.toml` beside the manifest at `path`.
pub open spec fn pyproject_beside(path: Seq<char>) -> Seq<char> {
    path.take(last_index(path, '/') + 1) + "pyproject.toml"@
}

/// Whether a manifest is read: a `setup.py` is skipped when a
/// `pyproject.toml` stands beside it.
pub open spec fn is_kept(all: Seq<ManifestFile>, m: ManifestFile) -> bool {
    !(spec_file_name(m.path@) == "setup.py"@ && exists|k: int|
        0 <= k < all.len() && (#[trigger] all[k]).path@ == pyproject_beside(m.path@))
}

/// The manifests of `rest` that are read, in order.
pub open spec fn kept_manifests(all: Seq<ManifestFile>, rest: Seq<ManifestFile>) -> Seq<
    ManifestFile,
>
    decreases rest.len(),
{
    if rest.len() == 0 {
        seq![]
    } else {
        let earlier = kept_manifests(all, rest.drop_last());
        if is_kept(all, rest.last()) {
            earlier.push(rest.last())
        } else {
            earlier
        }
    }
}

/// The packages of `manifests`, in order, or the error of the first
/// manifest that cannot be read.
pub open spec fn parse_all(manifests: Seq<ManifestFile>) -> Result<
    Seq<PackageModel>,
    InspectErrorModel,
>
    decreases manifests.len(),
{
    if manifests.len() == 0 {
        Ok(seq![])
    } else {
        match parse_all(manifests.drop_last()) {
            Err(e) => Err(e),
            Ok(packages) => match spec_parse_manifest(
                manifests.last().path@,
                manifests.last().contents@,
            ) {
                Err(e) => Err(e),
                Ok(Some(p)) => Ok(packages.push(p)),
                Ok(None) => Ok(packages),
            },
        }
    }
}

/// What inspecting the repository finds, before packages are ordered:
/// `manifests` and `workflows` are in sorted order.
pub open spec fn spec_inspect(
    root: Seq<char>,
    manifests: Seq<ManifestFile>,
    git_config: Option<Seq<char>>,
    workflows: Seq<WorkflowFile>,
) -> Result<(crate::model::RepositoryModel, Seq<PackageModel>), InspectErrorModel> {
    let kept = kept_manifests(manifests, manifests);
    match parse_all(kept) {
        Err(e) => Err(e),
        Ok(packages) => match spec_coordinates(git_config, kept) {
            Err(e) => Err(e),
            Ok((owner, repository)) => Ok(
                (
                    crate::model::RepositoryModel {
                        root,
                        github_owner: owner,
                        github_repository: repository,
                        release_workflow: pick_workflow(workflows, None),
                    },
                    packages,
                ),
            ),
        },
    }
}

/// What every inspected package satisfies: it lists problems exactly when
/// it cannot be published, only npm (`private`) and crates.io
/// (`publish = false`) packages can be unpublishable, and it comes from a
/// file whose name is a manifest name.
pub open spec fn package_is_consistent(p: PackageModel) -> bool {
    &&& (p.problems.len() == 0 <==> p.publishable)
    &&& (!p.publishable ==> p.registry == Registry::Npm || p.registry == Registry::CratesIo)
    &&& is_manifest_name(spec_file_name(p.manifest))
}

/// A package read from a manifest is consistent and names that manifest.
pub proof fn lemma_parsed_package_is_consistent(manifest: Seq<char>, text: Seq<char>)
    ensures
        spec_parse_manifest(manifest, text) matches Ok(Some(p)) ==> package_is_consistent(p)
            && p.manifest == manifest,
{
}

proof fn lemma_parse_all_consistent(manifests: Seq<ManifestFile>)
    ensures
        parse_all(manifests) matches Ok(packages) ==> forall|k: int|
            0 <= k < packages.len() ==> package_is_consistent(#[trigger] packages[k]),
    decreases manifests.len(),
{
    if manifests.len() > 0 {
        lemma_parse_all_consistent(manifests.drop_last());
        lemma_parsed_package_is_consistent(manifests.last().path@, manifests.last().contents@);
    }
}

/// No two manifests share a path, as in a directory tree.
pub open spec fn distinct_paths(ms: Seq<ManifestFile>) -> bool {
    forall|i: int, j: int| 0 <= i < j < ms.len() ==> (#[trigger] ms[i]).path@ != (#[trigger] ms[j]).path@
}

/// No two workflow files share a name, as in one directory.
pub open spec fn distinct_names(ws: Seq<WorkflowFile>) -> bool {
    forall|i: int, j: int| 0 <= i < j < ws.len() ==> (#[trigger] ws[i]).name@ != (#[trigger] ws[j]).name@
}

/// No two packages come from one manifest.
pub open spec fn distinct_manifests(ps: Seq<PackageModel>) -> bool {
    forall|i: int, j: int| 0 <= i < j < ps.len() ==> (#[trigger] ps[i]).manifest != (#[trigger] ps[j]).manifest
}

proof fn lemma_kept_from(all: Seq<ManifestFile>, rest: Seq<ManifestFile>)
    ensures
        forall|k: int|
            0 <= k < kept_manifests(all, rest).len() ==> rest.contains(
                #[trigger] kept_manifests(all, rest)[k],
            ),
        distinct_paths(rest) ==> distinct_paths(kept_manifests(all, rest)),
    decreases rest.len(),
{
    if rest.len() > 0 {
        let init = rest.drop_last();
        lemma_kept_from(all, init);
        let earlier = kept_manifests(all, init);
        let kept = kept_manifests(all, rest);
        assert forall|k: int| 0 <= k < kept.len() implies rest.contains(#[trigger] kept[k]) by {
            if k < earlier.len() {
                assert(kept[k] == earlier[k]);
                assert(init.contains(earlier[k]));
                let i = choose|i: int| 0 <= i < init.len() && init[i] == earlier[k];
                assert(rest[i] == init[i]);
            } else {
                assert(kept[k] == rest[rest.len() - 1]);
            }
        }
        if distinct_paths(rest) {
            assert(distinct_paths(init)) by {
                assert forall|i: int, j: int| 0 <= i < j < init.len() implies (#[trigger] init[i]).path@
                    != (#[trigger] init[j]).path@ by {
                    assert(init[i] == rest[i] && init[j] == rest[j]);
                }
            }
            assert forall|i: int, j: int| 0 <= i < j < kept.len() implies (#[trigger] kept[i]).path@
                != (#[trigger] kept[j]).path@ by {
                if j < earlier.len() {
                    assert(kept[i] == earlier[i] && kept[j] == earlier[j]);
                } else {
                    assert(kept[i] == earlier[i]);
                    assert(kept[j] == rest[rest.len() - 1]);
                    assert(init.contains(earlier[i]));
                    let p = choose|p: int| 0 <= p < init.len() && init[p] == earlier[i];
                    assert(rest[p] == earlier[i]);
                }
            }
        }
    }
}

proof fn lemma_parse_all_from(manifests: Seq<ManifestFile>)
    ensures
        parse_all(manifests) matches Ok(packages) ==> {
            &&& forall|k: int|
                0 <= k < packages.len() ==> exists|i: int|
                    0 <= i < manifests.len() && (#[trigger] packages[k]).manifest
                        == manifests[i].path@
            &&& distinct_paths(manifests) ==> distinct_manifests(packages)
        },
    decreases manifests.len(),
{
    if manifests.len() > 0 {
        let init = manifests.drop_last();
        let last = manifests.last();
        lemma_parse_all_from(init);
        lemma_parsed_package_is_consistent(last.path@, last.contents@);
        if parse_all(manifests) is Ok {
            let earlier = parse_all(init)->Ok_0;
            let packages = parse_all(manifests)->Ok_0;
            assert forall|k: int| 0 <= k < packages.len() implies exists|i: int|
                0 <= i < manifests.len() && (#[trigger] packages[k]).manifest
                    == manifests[i].path@ by {
                if k < earlier.len() {
                    assert(packages[k] == earlier[k]);
                    let i = choose|i: int|
                        0 <= i < init.len() && earlier[k].manifest == init[i].path@;
                    assert(manifests[i] == init[i]);
                } else {
                    assert(packages[k].manifest == manifests[manifests.len() - 1].path@);
                }
            }
            if distinct_paths(manifests) {
                assert(distinct_paths(init)) by {
                    assert forall|i: int, j: int| 0 <= i < j < init.len() implies (
                    #[trigger] init[i]).path@ != (#[trigger] init[j]).path@ by {
                        assert(init[i] == manifests[i] && init[j] == manifests[j]);
                    }
                }
                assert forall|i: int, j: int| 0 <= i < j < packages.len() implies (
                #[trigger] packages[i]).manifest != (#[trigger] packages[j]).manifest by {
                    if j < earlier.len() {
                        assert(packages[i] == earlier[i] && packages[j] == earlier[j]);
                    } else {
                        assert(packages[i] == earlier[i]);
                        let p = choose|p: int|
                            0 <= p < init.len() && earlier[i].manifest == init[p].path@;
                        assert(manifests[p] == init[p]);
                    }
                }
            }
        }
    }
}

/// The order of manifests by path, as a relation on manifests.
pub open spec fn manifest_le(a: ManifestFile, b: ManifestFile) -> bool {
    a.key_le(&b)
}

/// The order of workflow files by name, as a relation on workflow files.
pub open spec fn workflow_le(a: WorkflowFile, b: WorkflowFile) -> bool {
    a.key_le(&b)
}

/// Inspection does not depend on the order in which the directory listing
/// gave the files. Two listings of the same manifests and workflow files (no
/// two manifests with one path, no two workflow files with one name, as in a
/// directory tree) are sorted into one order, so inspecting them reads the
/// same files in the same order and gives the same outcome; and the packages
/// found, which come from distinct manifests, have only one sorted order.
pub proof fn lemma_inspection_ignores_listing_order(
    root: Seq<char>,
    git_config: Option<Seq<char>>,
    listed: Seq<ManifestFile>,
    relisted: Seq<ManifestFile>,
    workflows: Seq<WorkflowFile>,
    rewalked: Seq<WorkflowFile>,
    sorted: Seq<ManifestFile>,
    resorted: Seq<ManifestFile>,
    sorted_workflows: Seq<WorkflowFile>,
    resorted_workflows: Seq<WorkflowFile>,
    packages: Seq<PackageModel>,
    repackaged: Seq<PackageModel>,
)
    requires
        listed.to_multiset() == relisted.to_multiset(),
        workflows.to_multiset() == rewalked.to_multiset(),
        distinct_paths(listed),
        distinct_names(workflows),
        sorted.to_multiset() == listed.to_multiset() && is_sorted(sorted),
        resorted.to_multiset() == relisted.to_multiset() && is_sorted(resorted),
        sorted_workflows.to_multiset() == workflows.to_multiset() && is_sorted(sorted_workflows),
        resorted_workflows.to_multiset() == rewalked.to_multiset() && is_sorted(resorted_workflows),
        spec_inspect(root, sorted, git_config, sorted_workflows) matches Ok((_, found)) ==> {
            &&& packages.to_multiset() == found.to_multiset()
            &&& repackaged.to_multiset() == found.to_multiset()
            &&& sorted_by(packages, |a: PackageModel, b: PackageModel| package_le(a, b))
            &&& sorted_by(repackaged, |a: PackageModel, b: PackageModel| package_le(a, b))
        },
    ensures
        sorted == resorted,
        sorted_workflows == resorted_workflows,
        spec_inspect(root, sorted, git_config, sorted_workflows) == spec_inspect(
            root,
            resorted,
            git_config,
            resorted_workflows,
        ),
        spec_inspect(root, sorted, git_config, sorted_workflows) is Ok ==> packages == repackaged,
{
    broadcast use vstd::seq_lib::group_to_multiset_ensures;

    let mle = |a: ManifestFile, b: ManifestFile| manifest_le(a, b);
    let wle = |a: WorkflowFile, b: WorkflowFile| workflow_le(a, b);
    assert(sorted_by(sorted, mle));
    assert(sorted_by(resorted, mle));
    assert forall|x: ManifestFile, y: ManifestFile|
        sorted.contains(x) && sorted.contains(y) && mle(x, y) && mle(y, x) implies x == y by {
        lemma_text_le_antisymmetric(x.path@, y.path@, true);
        assert(sorted.to_multiset().count(x) > 0 && sorted.to_multiset().count(y) > 0);
        assert(listed.contains(x) && listed.contains(y));
        let i = choose|i: int| 0 <= i < listed.len() && listed[i] == x;
        let j = choose|j: int| 0 <= j < listed.len() && listed[j] == y;
        if i < j {
            assert(listed[i].path@ != listed[j].path@);
        } else if j < i {
            assert(listed[j].path@ != listed[i].path@);
        }
    }
    lemma_sorted_by_is_unique(sorted, resorted, mle);
    assert(sorted_by(sorted_workflows, wle));
    assert(sorted_by(resorted_workflows, wle));
    assert forall|x: WorkflowFile, y: WorkflowFile|
        sorted_workflows.contains(x) && sorted_workflows.contains(y) && wle(x, y) && wle(y, x) implies x
        == y by {
        lemma_text_le_antisymmetric(x.name@, y.name@, false);
        assert(sorted_workflows.to_multiset().count(x) > 0);
        assert(sorted_workflows.to_multiset().count(y) > 0);
        assert(workflows.contains(x) && workflows.contains(y));
        let i = choose|i: int| 0 <= i < workflows.len() && workflows[i] == x;
        let j = choose|j: int| 0 <= j < workflows.len() && workflows[j] == y;
        if i < j {
            assert(workflows[i].name@ != workflows[j].name@);
        } else if j < i {
            assert(workflows[j].name@ != workflows[i].name@);
        }
    }
    lemma_sorted_by_is_unique(sorted_workflows, resorted_workflows, wle);
    if spec_inspect(root, sorted, git_config, sorted_workflows) is Ok {
        let kept = kept_manifests(sorted, sorted);
        let found = parse_all(kept)->Ok_0;
        assert(distinct_paths(sorted)) by {
            assert forall|i: int, j: int| 0 <= i < j < sorted.len() implies (#[trigger] sorted[i]).path@
                != (#[trigger] sorted[j]).path@ by {
                if sorted[i].path@ == sorted[j].path@ {
                    assert(sorted[i].key_le(&sorted[j]) && sorted[j].key_le(&sorted[i])) by {
                        lemma_text_le_total(sorted[i].path@, sorted[j].path@, true);
                        if !text_le(sorted[j].path@, sorted[i].path@, true) {
                            assert(text_le(sorted[i].path@, sorted[j].path@, true));
                        }
                    }
                    assert(sorted.to_multiset().count(sorted[i]) > 0 && sorted.to_multiset().count(
                        sorted[j],
                    ) > 0) by {
                        assert(sorted.contains(sorted[i]) && sorted.contains(sorted[j]));
                    }
                    assert(sorted[i] == sorted[j]);
                    assert(sorted.to_multiset().count(sorted[i]) >= 2) by {
                        assert(sorted.remove(j).contains(sorted[i])) by {
                            assert(sorted.remove(j)[i] == sorted[i]);
                        }
                        assert(sorted.remove(j).to_multiset() == sorted.to_multiset().remove(
                            sorted[j],
                        ));
                        assert(sorted.remove(j).to_multiset().count(sorted[i]) > 0);
                    }
                    lemma_distinct_count(listed, sorted[i]);
                }
            }
        }
        lemma_kept_from(sorted, sorted);
        lemma_parse_all_from(kept);
        let ple = |a: PackageModel, b: PackageModel| package_le(a, b);
        assert forall|x: PackageModel, y: PackageModel|
            packages.contains(x) && packages.contains(y) && ple(x, y) && ple(y, x) implies x == y by {
            assert(packages.to_multiset().count(x) > 0 && packages.to_multiset().count(y) > 0);
            assert(found.contains(x) && found.contains(y));
            let i = choose|i: int| 0 <= i < found.len() && found[i] == x;
            let j = choose|j: int| 0 <= j < found.len() && found[j] == y;
            if x.manifest != y.manifest {
                lemma_text_le_antisymmetric(x.manifest, y.manifest, false);
            }
            if i < j {
                assert(found[i].manifest != found[j].manifest);
            } else if j < i {
                assert(found[j].manifest != found[i].manifest);
            }
        }
        lemma_sorted_by_is_unique(packages, repackaged, ple);
    }
}

/// In a listing without two manifests of one path, each manifest occurs once.
proof fn lemma_distinct_count(listed: Seq<ManifestFile>, m: ManifestFile)
    requires
        distinct_paths(listed),
    ensures
        listed.to_multiset().count(m) <= 1,
    decreases listed.len(),
{
    broadcast use vstd::seq_lib::group_to_multiset_ensures;

    if listed.len() > 0 {
        let init = listed.drop_last();
        assert(distinct_paths(init)) by {
            assert forall|i: int, j: int| 0 <= i < j < init.len() implies (#[trigger] init[i]).path@
                != (#[trigger] init[j]).path@ by {
                assert(init[i] == listed[i] && init[j] == listed[j]);
            }
        }
        lemma_distinct_count(init, m);
        assert(listed =~= init.push(listed.last()));
        if listed.last() == m {
            assert(!init.contains(m)) by {
                if init.contains(m) {
                    let i = choose|i: int| 0 <= i < init.len() && init[i] == m;
                    assert(listed[i] == m);
                    assert(listed[i].path@ != listed[listed.len() - 1].path@);
                }
            }
            assert(init.to_multiset().count(m) == 0);
        }
    }
}

fn copy_manifest(m: &ManifestFile) -> (c: ManifestFile)
    ensures
        c == *m,
{
    ManifestFile { path: m.path.clone(), contents: m.contents.clone() }
}

fn has_path(all: &Vec<ManifestFile>, path: &str) -> (r: bool)
    ensures
        r == exists|k: int| 0 <= k < all@.len() && (#[trigger] all@[k]).path@ == path@,
{
    for i in 0..all.len()
        invariant
            forall|k: int| 0 <= k < i ==> (#[trigger] all@[k]).path@ != path@,
    {
        if text_eq(all[i].path.as_str(), path) {
            return true;
        }
    }
    false
}

fn keep_manifest(all: &Vec<ManifestFile>, m: &ManifestFile) -> (r: bool)
    ensures
        r == is_kept(all@, *m),
{
    let cs = chars_of(m.path.as_str());
    let name_chars = file_name_chars(&cs);
    assert(name_chars@.subrange(0, name_chars@.len() as int) =~= name_chars@);
    let name = text_of_range(&name_chars, 0, name_chars.len());
    if !text_eq(name.as_str(), "setup.py") {
        return true;
    }
    let dir_end = match last_index_of(&cs, '/') {
        Some(i) => {
            assert(i < cs@.len() == cs.len());
            i + 1
        },
        None => 0,
    };
    let mut beside = text_of_range(&cs, 0, dir_end);
    assert(cs@.subrange(0, dir_end as int) =~= cs@.take(dir_end as int));
    beside.append("pyproject.toml");
    !has_path(all, beside.as_str())
}

fn keep_manifests(all: &Vec<ManifestFile>) -> (r: Vec<ManifestFile>)
    ensures
        r@ == kept_manifests(all@, all@),
{
    let mut out: Vec<ManifestFile> = Vec::new();
    for i in 0..all.len()
        invariant
            out@ == kept_manifests(all@, all@.take(i as int)),
    {
        assert(all@.take(i + 1).drop_last() =~= all@.take(i as int));
        if keep_manifest(all, &all[i]) {
            out.push(copy_manifest(&all[i]));
        }
    }
    assert(all@.take(all@.len() as int) =~= all@);
    out
}

fn parse_manifests(manifests: &Vec<ManifestFile>) -> (r: Result<Vec<Package>, InspectError>)
    ensures
        match r {
            Ok(v) => parse_all(manifests@) == Ok::<Seq<PackageModel>, InspectErrorModel>(
                crate::model::package_models(v@),
            ),
            Err(e) => parse_all(manifests@) == Err::<Seq<PackageModel>, InspectErrorModel>(e@),
        },
{
    let mut packages: Vec<Package> = Vec::new();
    assert(manifests@.take(0) =~= Seq::<ManifestFile>::empty());
    assert(crate::model::package_models(packages@) =~= Seq::<PackageModel>::empty());
    for i in 0..manifests.len()
        invariant
            parse_all(manifests@.take(i as int)) == Ok::<Seq<PackageModel>, InspectErrorModel>(
                crate::model::package_models(packages@),
            ),
    {
        let m = &manifests[i];
        assert(manifests@.take(i + 1).drop_last() =~= manifests@.take(i as int));
        assert(manifests@.take(i + 1).last() == *m);
        match parse_manifest(m.path.as_str(), m.contents.as_str()) {
            Err(e) => {
                proof {
                    lemma_parse_all_error_persists(manifests@, i + 1);
                }
                return Err(e);
            },
            Ok(Some(p)) => {
                let ghost before = packages@;
                packages.push(p);
                assert(crate::model::package_models(packages@) =~= crate::model::package_models(
                    before,
                ).push(p@));
            },
            Ok(None) => {},
        }
    }
    assert(manifests@.take(manifests@.len() as int) =~= manifests@);
    Ok(packages)
}

proof fn lemma_parse_all_error_persists(manifests: Seq<ManifestFile>, n: int)
    requires
        0 <= n <= manifests.len(),
        parse_all(manifests.take(n)) is Err,
    ensures
        parse_all(manifests) == parse_all(manifests.take(n)),
    decreases manifests.len() - n,
{
    if n < manifests.len() {
        assert(manifests.take(n + 1).drop_last() =~= manifests.take(n));
        lemma_parse_all_error_persists(manifests, n + 1);
    } else {
        assert(manifests.take(n) =~= manifests);
    }
}

/// Inspects a repository from what was read of it: `root` is its path as
/// shown to the user; `manifests` are the manifest files found outside the
/// ignored directories, with paths relative to the root; `git_config` is
/// `.git/config` when it could be read; `workflows` are the workflow files of
/// `.github/workflows`.
///
/// Manifests and workflows are taken in sorted order, packages are ordered
/// by registry, manifest path and name, and a failure to read a manifest ends
/// the inspection with its error.
pub fn inspect_repository(
    root: String,
    manifests: Vec<ManifestFile>,
    git_config: Option<String>,
    workflows: Vec<WorkflowFile>,
) -> (r: Result<crate::model::Inspection, InspectError>)
    ensures
        exists|sorted: Seq<ManifestFile>, sorted_workflows: Seq<WorkflowFile>|
            {
                &&& sorted.to_multiset() == manifests@.to_multiset()
                &&& is_sorted(sorted)
                &&& sorted_workflows.to_multiset() == workflows@.to_multiset()
                &&& is_sorted(sorted_workflows)
                &&& match spec_inspect(root@, sorted, opt_text(git_config), sorted_workflows) {
                    Err(e) => r matches Err(error) && error@ == e,
                    Ok((repository, found)) => r matches Ok(inspection) && {
                        &&& inspection.schema_version == 1
                        &&& inspection.repository@ == repository
                        &&& is_sorted(inspection.packages@)
                        &&& crate::model::package_models(inspection.packages@).to_multiset()
                            == found.to_multiset()
                        &&& forall|k: int|
                            0 <= k < inspection.packages@.len() ==> package_is_consistent(
                                #[trigger] inspection.packages@[k]@,
                            )
                        &&& exists|unsorted: Seq<Package>|
                            crate::model::package_models(unsorted) == found
                                && unsorted.to_multiset() == inspection.packages@.to_multiset()
                    },
                }
            },
{
    let sorted = insertion_sort(manifests);
    let sorted_workflows = insertion_sort(workflows);
    let ghost outcome = spec_inspect(root@, sorted@, opt_text(git_config), sorted_workflows@);
    let kept = keep_manifests(&sorted);
    let parsed = parse_manifests(&kept);
    let found = match parsed {
        Ok(found) => found,
        Err(e) => {
            return Err(e);
        },
    };
    let ghost unsorted = found@;
    let packages = insertion_sort(found);
    proof {
        assert(crate::model::package_models(packages@).to_multiset() == crate::model::package_models(
            unsorted,
        ).to_multiset()) by {
            lemma_map_values_multiset(unsorted, packages@, |p: Package| p@);
        }
        assert forall|k: int| 0 <= k < packages@.len() implies package_is_consistent(
            #[trigger] packages@[k]@,
        ) by {
            broadcast use vstd::seq_lib::group_to_multiset_ensures;

            assert(packages@.contains(packages@[k]));
            assert(packages@.to_multiset().count(packages@[k]) > 0);
            assert(unsorted.to_multiset().count(packages@[k]) > 0);
            assert(unsorted.contains(packages@[k]));
            let j = choose|j: int| 0 <= j < unsorted.len() && unsorted[j] == packages@[k];
            let models = crate::model::package_models(unsorted);
            assert(parse_all(kept@) == Ok::<Seq<PackageModel>, InspectErrorModel>(models));
            lemma_parse_all_consistent(kept@);
            let read = parse_all(kept@)->Ok_0;
            assert(read == models);
            assert(models.len() == unsorted.len());
            assert(package_is_consistent(read[j]));
            assert(models[j] == unsorted[j]@);
        }
    }
    let config = match &git_config {
        Some(c) => Some(c.as_str()),
        None => None,
    };
    let (owner, repository) = match github_coordinates(config, &kept) {
        Ok(c) => c,
        Err(e) => {
            return Err(e);
        },
    };
    let release = pick_from(&sorted_workflows);
    let inspection = crate::model::Inspection {
        schema_version: 1,
        repository: crate::model::RepositoryInfo {
            root,
            github_owner: owner,
            github_repository: repository,
            release_workflow: release,
        },
        packages,
    };
    Ok(inspection)
}

// ---------------------------------------------------------------------------
// Relative paths
// ---------------------------------------------------------------------------

/// A path relative to `root`, given both as path components, written with
/// `/`: the components after `root` when `path` lies under it, else all of
/// `path`'s components.
pub open spec fn spec_relative_path(path: Seq<Seq<char>>, root: Seq<Seq<char>>) -> Seq<char> {
    if root.len() <= path.len() && path.take(root.len() as int) == root {
        join_with(path.skip(root.len() as int), "/"@)
    } else {
        join_with(path, "/"@)
    }
}

/// Writes the path with components `path` relative to the root with
/// components `root`, separated by `/`.
pub fn relative_path(path: &Vec<String>, root: &Vec<String>) -> (r: String)
    ensures
        r@ == spec_relative_path(crate::model::texts(*path), crate::model::texts(*root)),
{
    let ghost p = crate::model::texts(*path);
    let ghost q = crate::model::texts(*root);
    let mut under = root.len() <= path.len();
    let mut i: usize = 0;
    while under && i < root.len()
        invariant
            p == crate::model::texts(*path),
            q == crate::model::texts(*root),
            i <= root@.len(),
            under ==> root@.len() <= path@.len(),
            under ==> forall|k: int| 0 <= k < i ==> p[k] == q[k],
            !under ==> !(q.len() <= p.len() && p.take(q.len() as int) == q),
        decreases root@.len() - i + (if under {
            1int
        } else {
            0int
        }),
    {
        if !text_eq(path[i].as_str(), root[i].as_str()) {
            proof {
                if q.len() <= p.len() && p.take(q.len() as int) == q {
                    assert(p.take(q.len() as int)[i as int] == p[i as int]);
                }
            }
            under = false;
        } else {
            i = i + 1;
        }
    }
    if under {
        assert(p.take(q.len() as int) =~= q);
        let mut rest: Vec<String> = Vec::new();
        for k in root.len()..path.len()
            invariant
                p == crate::model::texts(*path),
                q.len() <= p.len(),
                q.len() <= k <= p.len(),
                crate::model::texts(rest) == p.subrange(q.len() as int, k as int),
                rest@.len() == k - q.len(),
        {
            let ghost before = rest@;
            rest.push(path[k].clone());
            assert forall|j: int| 0 <= j < rest@.len() implies #[trigger] rest@[j]@ == p.subrange(
                q.len() as int,
                k + 1,
            )[j] by {
                if j < before.len() {
                    assert(rest@[j] == before[j]);
                    assert(crate::model::texts(rest)[j] == before.map_values(|s: String| s@)[j]);
                }
            }
            assert(crate::model::texts(rest) =~= p.subrange(q.len() as int, k + 1));
        }
        assert(p.subrange(q.len() as int, p.len() as int) =~= p.skip(q.len() as int));
        join_strings(&rest, "/")
    } else {
        join_strings(path, "/")
    }
}

} // verus!
