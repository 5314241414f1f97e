//! Setup plans: the ordered checks and registry pages for each package.

use vstd::prelude::*;
use vstd::string::{StrSliceExecFns, StringExecFns, StringSliceAdditionalSpecFns};

use crate::model::{
    opt_prefill, opt_text, plan_models, step_models, texts, CommandModel, CommandSpec, Inspection, InspectionModel, Package, PackageModel,
    PlanModel, PrefillModel, Registry, RepositoryInfo, RepositoryModel, SetupPlan, SetupStep,
    StepKind, StepModel, TrustedPublisherPrefill,
};
use crate::text::{chars_of, last_index, last_index_of, text_eq, text_from_chars};
use vstd::utf8::{encode_utf8, is_ascii_chars, is_ascii_chars_encode_utf8};

verus! {

// ---------------------------------------------------------------------------
// Manifest directories
// ---------------------------------------------------------------------------

/// The directory part of a `/`-separated manifest path: everything before the
/// last `/`, or `.` when there is none.
pub open spec fn spec_package_directory(manifest: Seq<char>) -> Seq<char> {
    if last_index(manifest, '/') >= 0 {
        manifest.take(last_index(manifest, '/'))
    } else {
        "."@
    }
}

/// The directory that holds a manifest, given its `/`-separated path relative
/// to the repository root; `.` for a manifest at the root.
pub fn package_directory(manifest: &str) -> (dir: &str)
    ensures
        dir@ == spec_package_directory(manifest@),
{
    let cs = chars_of(manifest);
    match last_index_of(&cs, '/') {
        Some(i) => manifest.substring_char(0, i),
        None => ".",
    }
}

// ---------------------------------------------------------------------------
// URL path segments
// ---------------------------------------------------------------------------

/// Bytes that stand for themselves in a registry URL path segment: ASCII
/// letters and digits and `-`, `_`, `.`, `~`, `@`.
pub open spec fn is_unreserved_byte(b: u8) -> bool {
    ||| ('0' as u8) <= b <= ('9' as u8)
    ||| ('A' as u8) <= b <= ('Z' as u8)
    ||| ('a' as u8) <= b <= ('z' as u8)
    ||| b == '-' as u8
    ||| b == '_' as u8
    ||| b == '.' as u8
    ||| b == '~' as u8
    ||| b == '@' as u8
}

/// The upper-case hexadecimal digit for `d < 16`.
pub open spec fn hex_digit(d: u8) -> char {
    if d < 10 {
        (d + 48) as char
    } else {
        (d + 55) as char
    }
}

/// How one byte is written: itself when unreserved, `%XX` otherwise.
pub open spec fn encode_byte(b: u8) -> Seq<char> {
    if is_unreserved_byte(b) {
        seq![b as char]
    } else {
        seq!['%', hex_digit(b / 16), hex_digit(b % 16)]
    }
}

/// Percent-encoding of a byte string, byte by byte.
pub open spec fn percent_encode(bytes: Seq<u8>) -> Seq<char>
    decreases bytes.len(),
{
    if bytes.len() == 0 {
        seq![]
    } else {
        percent_encode(bytes.drop_last()) + encode_byte(bytes.last())
    }
}

/// The value of a hexadecimal digit (either case); other characters count
/// as zero.
pub open spec fn hex_value(c: char) -> int {
    if '0' <= c <= '9' {
        c as int - 48
    } else if 'A' <= c <= 'F' {
        c as int - 55
    } else if 'a' <= c <= 'f' {
        c as int - 87
    } else {
        0
    }
}

/// Percent-decoding: `%XY` is the byte with hexadecimal digits `X` and `Y`,
/// any other character is its own byte.
pub open spec fn percent_decode(s: Seq<char>) -> Seq<u8>
    decreases s.len(),
{
    if s.len() == 0 {
        seq![]
    } else if s[0] == '%' && s.len() >= 3 {
        seq![(hex_value(s[1]) * 16 + hex_value(s[2])) as u8] + percent_decode(s.skip(3))
    } else {
        seq![s[0] as u8] + percent_decode(s.drop_first())
    }
}

/// Text whose characters are ASCII and stand for themselves in a URL path
/// segment.
pub open spec fn is_unreserved_text(value: Seq<char>) -> bool {
    forall|i: int|
        0 <= i < value.len() ==> '\0' <= #[trigger] value[i] <= '\u{7f}' && is_unreserved_byte(
            value[i] as u8,
        )
}

/// A character that may stand in an encoded segment: ASCII, and not `/`.
pub open spec fn is_segment_char(c: char) -> bool {
    c <= '\u{7f}' && c != '/'
}

proof fn lemma_encode_byte_safe(b: u8)
    ensures
        forall|k: int| 0 <= k < encode_byte(b).len() ==> is_segment_char(#[trigger] encode_byte(b)[k]),
{
    if !is_unreserved_byte(b) {
        assert(b / 16 < 16 && b % 16 < 16);
    }
}

proof fn lemma_encode_safe(bytes: Seq<u8>)
    ensures
        forall|k: int|
            0 <= k < percent_encode(bytes).len() ==> is_segment_char(#[trigger] percent_encode(bytes)[k]),
    decreases bytes.len(),
{
    if bytes.len() > 0 {
        lemma_encode_safe(bytes.drop_last());
        lemma_encode_byte_safe(bytes.last());
        let a = percent_encode(bytes.drop_last());
        let e = encode_byte(bytes.last());
        assert forall|k: int| 0 <= k < percent_encode(bytes).len() implies is_segment_char(
            #[trigger] percent_encode(bytes)[k],
        ) by {
            if k < a.len() {
                assert(percent_encode(bytes)[k] == a[k]);
            } else {
                assert(percent_encode(bytes)[k] == e[k - a.len()]);
            }
        }
    }
}

proof fn lemma_encode_front(bytes: Seq<u8>)
    requires
        bytes.len() > 0,
    ensures
        percent_encode(bytes) == encode_byte(bytes[0]) + percent_encode(bytes.drop_first()),
    decreases bytes.len(),
{
    if bytes.len() > 1 {
        lemma_encode_front(bytes.drop_last());
        assert(bytes.drop_last().drop_first() =~= bytes.drop_first().drop_last());
        assert(bytes.drop_last()[0] == bytes[0]);
        assert(bytes.drop_first().last() == bytes.last());
        assert(percent_encode(bytes) =~= encode_byte(bytes[0]) + percent_encode(bytes.drop_first()));
    } else {
        assert(bytes.drop_first() =~= Seq::<u8>::empty());
        assert(bytes.drop_last() =~= Seq::<u8>::empty());
        assert(percent_encode(bytes) =~= encode_byte(bytes[0]) + percent_encode(bytes.drop_first()));
    }
}

proof fn lemma_hex_round_trip(d: u8)
    requires
        d < 16,
    ensures
        hex_value(hex_digit(d)) == d,
{
}

proof fn lemma_decode_byte(b: u8, rest: Seq<char>)
    ensures
        percent_decode(encode_byte(b) + rest) == seq![b] + percent_decode(rest),
{
    let s = encode_byte(b) + rest;
    if is_unreserved_byte(b) {
        assert(s[0] == b as char);
        assert(s.drop_first() =~= rest);
        assert((b as char) as u8 == b);
    } else {
        lemma_hex_round_trip(b / 16);
        lemma_hex_round_trip(b % 16);
        assert(s[0] == '%' && s[1] == hex_digit(b / 16) && s[2] == hex_digit(b % 16));
        assert(s.skip(3) =~= rest);
        assert(((b / 16) * 16 + b % 16) as u8 == b) by (nonlinear_arith);
    }
}

proof fn lemma_decode_encode(bytes: Seq<u8>)
    ensures
        percent_decode(percent_encode(bytes)) == bytes,
    decreases bytes.len(),
{
    if bytes.len() > 0 {
        lemma_encode_front(bytes);
        lemma_decode_encode(bytes.drop_first());
        lemma_decode_byte(bytes[0], percent_encode(bytes.drop_first()));
        assert(bytes =~= seq![bytes[0]] + bytes.drop_first());
    }
}

proof fn lemma_encode_unreserved(bytes: Seq<u8>)
    requires
        forall|i: int| 0 <= i < bytes.len() ==> is_unreserved_byte(#[trigger] bytes[i]),
    ensures
        percent_encode(bytes) == bytes.map_values(|b: u8| b as char),
    decreases bytes.len(),
{
    if bytes.len() > 0 {
        lemma_encode_unreserved(bytes.drop_last());
        assert(is_unreserved_byte(bytes[bytes.len() - 1]));
        assert(percent_encode(bytes) =~= bytes.map_values(|b: u8| b as char));
    }
}

/// The laws of URL path segments (`url_path_segment` computes
/// `percent_encode(encode_utf8(value))`): the segment is ASCII and holds no
/// `/`, it decodes back to the UTF-8 bytes of the value, and it is the value
/// itself when every character of the value stands for itself.
pub proof fn lemma_url_path_segment_laws(value: Seq<char>)
    ensures
        forall|k: int|
            0 <= k < percent_encode(encode_utf8(value)).len() ==> #[trigger] percent_encode(
                encode_utf8(value),
            )[k] <= '\u{7f}',
        !percent_encode(encode_utf8(value)).contains('/'),
        percent_decode(percent_encode(encode_utf8(value))) == encode_utf8(value),
        is_unreserved_text(value) ==> percent_encode(encode_utf8(value)) == value,
{
    let bytes = encode_utf8(value);
    let segment = percent_encode(bytes);
    lemma_encode_safe(bytes);
    assert forall|i: int| 0 <= i < segment.len() implies #[trigger] segment[i] <= '\u{7f}' by {
        assert(is_segment_char(segment[i]));
    }
    if segment.contains('/') {
        let k = choose|k: int| 0 <= k < segment.len() && segment[k] == '/';
        assert(is_segment_char(segment[k]));
    }
    lemma_decode_encode(bytes);
    if is_unreserved_text(value) {
        assert(is_ascii_chars(value)) by {
            assert forall|i: int| 0 <= i < value.len() implies '\0' <= #[trigger] value[i] <= '\u{7f}' by {
                assert('\0' <= value[i] <= '\u{7f}' && is_unreserved_byte(value[i] as u8));
            }
        }
        is_ascii_chars_encode_utf8(value);
        assert forall|i: int| 0 <= i < bytes.len() implies is_unreserved_byte(#[trigger] bytes[i]) by {
            assert(bytes[i] == value[i] as u8);
            assert('\0' <= value[i] <= '\u{7f}' && is_unreserved_byte(value[i] as u8));
        }
        lemma_encode_unreserved(bytes);
        assert forall|i: int| 0 <= i < value.len() implies #[trigger] segment[i] == value[i] by {
            assert(bytes[i] == value[i] as u8);
            assert(value[i] <= '\u{7f}');
            assert((value[i] as u8) as char == value[i]);
        }
        assert(segment =~= value);
    }
}

fn hex_digit_exec(d: u8) -> (c: char)
    requires
        d < 16,
    ensures
        c == hex_digit(d),
{
    if d < 10 {
        (d + 48) as char
    } else {
        (d + 55) as char
    }
}

fn is_unreserved_exec(b: u8) -> (r: bool)
    ensures
        r == is_unreserved_byte(b),
{
    (b >= 48 && b <= 57) || (b >= 65 && b <= 90) || (b >= 97 && b <= 122) || b == 45 || b == 95
        || b == 46 || b == 126 || b == 64
}

/// Percent-encodes the UTF-8 bytes of `value` for use as one URL path
/// segment, so that `@scope/name` becomes `@scope%2Fname`.
pub fn url_path_segment(value: &str) -> (r: String)
    ensures
        r@ == percent_encode(value.spec_bytes()),
{
    let bytes = value.as_bytes();
    let mut out: Vec<char> = Vec::new();
    for i in 0..bytes.len()
        invariant
            bytes@ == value.spec_bytes(),
            out@ == percent_encode(bytes@.take(i as int)),
    {
        let b = bytes[i];
        if is_unreserved_exec(b) {
            out.push(b as char);
        } else {
            out.push('%');
            out.push(hex_digit_exec(b / 16));
            out.push(hex_digit_exec(b % 16));
        }
        assert(bytes@.take(i + 1).drop_last() =~= bytes@.take(i as int));
        assert(out@ =~= percent_encode(bytes@.take(i + 1)));
    }
    assert(bytes@.take(bytes@.len() as int) =~= bytes@);
    text_from_chars(out.as_slice())
}

// ---------------------------------------------------------------------------
// Plans
// ---------------------------------------------------------------------------

pub open spec fn check_step(
    id: Seq<char>,
    title: Seq<char>,
    description: Seq<char>,
    command: CommandModel,
) -> StepModel {
    StepModel { id, title, kind: StepKind::Check, description, command: Some(command), url: None }
}

pub open spec fn browser_step(
    id: Seq<char>,
    title: Seq<char>,
    description: Seq<char>,
    url: Seq<char>,
) -> StepModel {
    StepModel { id, title, kind: StepKind::Browser, description, command: None, url: Some(url) }
}

pub open spec fn manual_step(
    id: Seq<char>,
    title: Seq<char>,
    description: Seq<char>,
    url: Seq<char>,
) -> StepModel {
    StepModel { id, title, kind: StepKind::Manual, description, command: None, url: Some(url) }
}

/// The steps for a package of `registry` named `name`: a local check that
/// never uploads anything, then the registry page where setup is finished.
pub open spec fn spec_plan_steps(registry: Registry, name: Seq<char>) -> Seq<StepModel> {
    match registry {
        Registry::Npm => seq![
            check_step(
                "validate-package"@,
                "Validate npm metadata"@,
                "Read the package metadata with npm before changing registry settings."@,
                CommandModel {
                    program: "npm"@,
                    args: seq!["pkg"@, "get"@, "name"@, "version"@, "repository"@],
                },
            ),
            browser_step(
                "configure-trusted-publisher"@,
                "Configure npm trusted publishing"@,
                "Sign in in the isolated browser profile, review the prefilled GitHub Actions identity, and explicitly confirm submission."@,
                "https://www.npmjs.com/package/"@ + percent_encode(encode_utf8(name)) + "/access"@,
            ),
        ],
        Registry::CratesIo => seq![
            check_step(
                "validate-package"@,
                "Validate the crate"@,
                "Package the crate without uploading it."@,
                CommandModel {
                    program: "cargo"@,
                    args: seq!["publish"@, "--dry-run"@],
                },
            ),
            browser_step(
                "review-account"@,
                "Review crates.io account settings"@,
                "Sign in with GitHub and review API-token or trusted-publishing settings. The tool never creates or prints a token."@,
                "https://crates.io/settings/tokens"@,
            ),
        ],
        Registry::PyPi => seq![
            check_step(
                "build-package"@,
                "Build the Python distribution"@,
                "Build source and wheel distributions locally."@,
                CommandModel {
                    program: "python"@,
                    args: seq!["-m"@, "build"@],
                },
            ),
            browser_step(
                "configure-trusted-publisher"@,
                "Configure a PyPI trusted publisher"@,
                "Sign in and add the repository's GitHub Actions workflow as a trusted publisher."@,
                "https://pypi.org/manage/project/"@ + percent_encode(encode_utf8(name)) + "/settings/publishing/"@,
            ),
        ],
        Registry::GoModules => seq![
            check_step(
                "test-module"@,
                "Test the Go module"@,
                "Run all module tests before tagging a semantic version."@,
                CommandModel {
                    program: "go"@,
                    args: seq!["test"@, "./..."@],
                },
            ),
            manual_step(
                "publish-tag"@,
                "Push a semantic-version tag"@,
                "Go modules are published from repository tags; after pushing the tag, request it through proxy.golang.org."@,
                "https://go.dev/ref/mod#publishing-a-module"@,
            ),
        ],
        Registry::NuGet => seq![
            check_step(
                "pack-package"@,
                "Build the NuGet package"@,
                "Create the package locally without pushing it."@,
                CommandModel {
                    program: "dotnet"@,
                    args: seq!["pack"@, "--configuration"@, "Release"@],
                },
            ),
            browser_step(
                "configure-trusted-publishing"@,
                "Configure NuGet trusted publishing"@,
                "Sign in and add a GitHub Actions federated credential for this package."@,
                "https://www.nuget.org/account/TrustedPublishing"@,
            ),
        ],
        Registry::MavenCentral => seq![
            check_step(
                "verify-build"@,
                "Verify the Maven build"@,
                "Run the build lifecycle without deploying an artifact."@,
                CommandModel {
                    program: "mvn"@,
                    args: seq!["--batch-mode"@, "verify"@],
                },
            ),
            browser_step(
                "verify-namespace"@,
                "Verify a Central namespace"@,
                "Sign in to the Central Portal and verify the namespace used by the package coordinates."@,
                "https://central.sonatype.com/publishing/namespaces"@,
            ),
        ],
        Registry::Packagist => seq![
            check_step(
                "validate-package"@,
                "Validate Composer metadata"@,
                "Strictly validate composer.json before submitting it."@,
                CommandModel {
                    program: "composer"@,
                    args: seq!["validate"@, "--strict"@],
                },
            ),
            browser_step(
                "submit-repository"@,
                "Submit the repository to Packagist"@,
                "Sign in and submit the public VCS repository URL. Packagist reads package versions from tags."@,
                "https://packagist.org/packages/submit"@,
            ),
        ],
    }
}

/// The npm trusted-publisher form values, known only when the repository's
/// GitHub owner, repository and release workflow were all found.
pub open spec fn spec_trusted_publisher(registry: Registry, repo: RepositoryModel) -> Option<
    PrefillModel,
> {
    if registry == Registry::Npm {
        match (repo.github_owner, repo.github_repository, repo.release_workflow) {
            (Some(owner), Some(repository), Some(workflow)) => Some(
                PrefillModel {
                    provider: "github-actions"@,
                    organization: owner,
                    repository: repository,
                    workflow: workflow,
                    environment: None,
                },
            ),
            _ => None,
        }
    } else {
        None
    }
}

pub open spec fn annotate_problem(problem: Seq<char>, directory: Seq<char>) -> Seq<char> {
    problem + " (manifest directory: "@ + directory + ")"@
}

/// Problems of a package outside the repository root name its directory.
pub open spec fn annotate_problems(problems: Seq<Seq<char>>, directory: Seq<char>) -> Seq<
    Seq<char>,
> {
    if directory == "."@ {
        problems
    } else {
        problems.map_values(|p: Seq<char>| annotate_problem(p, directory))
    }
}

/// The setup plan for one inspected package.
pub open spec fn spec_build_plan(inspection: InspectionModel, package: PackageModel) -> PlanModel {
    PlanModel {
        schema_version: 1,
        registry: package.registry,
        package: PackageModel {
            registry: package.registry,
            name: package.name,
            version: package.version,
            manifest: package.manifest,
            publishable: package.publishable,
            problems: annotate_problems(
                package.problems,
                spec_package_directory(package.manifest),
            ),
        },
        repository: inspection.repository,
        steps: spec_plan_steps(package.registry, package.name),
        trusted_publisher: spec_trusted_publisher(package.registry, inspection.repository),
    }
}

fn copy_text_option(o: &Option<String>) -> (r: Option<String>)
    ensures
        opt_text(r) == opt_text(*o),
{
    match o {
        Some(s) => Some(s.clone()),
        None => None,
    }
}

fn copy_repository(r: &RepositoryInfo) -> (c: RepositoryInfo)
    ensures
        c@ == r@,
{
    RepositoryInfo {
        root: r.root.clone(),
        github_owner: copy_text_option(&r.github_owner),
        github_repository: copy_text_option(&r.github_repository),
        release_workflow: copy_text_option(&r.release_workflow),
    }
}

fn push_text(v: &mut Vec<String>, s: &str)
    ensures
        texts(*final(v)) == texts(*old(v)).push(s@),
{
    v.push(s.to_owned());
    assert(texts(*v) =~= texts(*old(v)).push(s@));
}

fn command(program: &str, args: Vec<String>) -> (c: CommandSpec)
    ensures
        c@ == (CommandModel { program: program@, args: texts(args) }),
{
    CommandSpec { program: program.to_owned(), args }
}

fn check(id: &str, title: &str, description: &str, command: CommandSpec) -> (s: SetupStep)
    ensures
        s@ == check_step(id@, title@, description@, command@),
{
    SetupStep {
        id: id.to_owned(),
        title: title.to_owned(),
        kind: StepKind::Check,
        description: description.to_owned(),
        command: Some(command),
        url: None,
    }
}

fn browser(id: &str, title: &str, description: &str, url: String) -> (s: SetupStep)
    ensures
        s@ == browser_step(id@, title@, description@, url@),
{
    SetupStep {
        id: id.to_owned(),
        title: title.to_owned(),
        kind: StepKind::Browser,
        description: description.to_owned(),
        command: None,
        url: Some(url),
    }
}

fn manual(id: &str, title: &str, description: &str, url: String) -> (s: SetupStep)
    ensures
        s@ == manual_step(id@, title@, description@, url@),
{
    SetupStep {
        id: id.to_owned(),
        title: title.to_owned(),
        kind: StepKind::Manual,
        description: description.to_owned(),
        command: None,
        url: Some(url),
    }
}

fn two_steps(first: SetupStep, second: SetupStep) -> (v: Vec<SetupStep>)
    ensures
        step_models(v@) == seq![first@, second@],
{
    let mut v: Vec<SetupStep> = Vec::new();
    v.push(first);
    v.push(second);
    assert(step_models(v@) =~= seq![first@, second@]);
    v
}

fn steps_npm(name: &str) -> (v: Vec<SetupStep>)
    ensures
        step_models(v@) == spec_plan_steps(Registry::Npm, name@),
{
    let mut args: Vec<String> = Vec::new();
    push_text(&mut args, "pkg");
    push_text(&mut args, "get");
    push_text(&mut args, "name");
    push_text(&mut args, "version");
    push_text(&mut args, "repository");
    assert(texts(args) =~= seq!["pkg"@, "get"@, "name"@, "version"@, "repository"@]);
    let s0 = check(
        "validate-package",
        "Validate npm metadata",
        "Read the package metadata with npm before changing registry settings.",
        command("npm", args),
    );
    let mut url = "https://www.npmjs.com/package/".to_owned();
    let segment = url_path_segment(name);
    url.append(segment.as_str());
    url.append("/access");
    let s1 = browser(
        "configure-trusted-publisher",
        "Configure npm trusted publishing",
        "Sign in in the isolated browser profile, review the prefilled GitHub Actions identity, and explicitly confirm submission.",
        url,
    );
    two_steps(s0, s1)
}

fn steps_cratesio(name: &str) -> (v: Vec<SetupStep>)
    ensures
        step_models(v@) == spec_plan_steps(Registry::CratesIo, name@),
{
    let mut args: Vec<String> = Vec::new();
    push_text(&mut args, "publish");
    push_text(&mut args, "--dry-run");
    assert(texts(args) =~= seq!["publish"@, "--dry-run"@]);
    let s0 = check(
        "validate-package",
        "Validate the crate",
        "Package the crate without uploading it.",
        command("cargo", args),
    );
    let url = "https://crates.io/settings/tokens".to_owned();
    let s1 = browser(
        "review-account",
        "Review crates.io account settings",
        "Sign in with GitHub and review API-token or trusted-publishing settings. The tool never creates or prints a token.",
        url,
    );
    two_steps(s0, s1)
}

fn steps_pypi(name: &str) -> (v: Vec<SetupStep>)
    ensures
        step_models(v@) == spec_plan_steps(Registry::PyPi, name@),
{
    let mut args: Vec<String> = Vec::new();
    push_text(&mut args, "-m");
    push_text(&mut args, "build");
    assert(texts(args) =~= seq!["-m"@, "build"@]);
    let s0 = check(
        "build-package",
        "Build the Python distribution",
        "Build source and wheel distributions locally.",
        command("python", args),
    );
    let mut url = "https://pypi.org/manage/project/".to_owned();
    let segment = url_path_segment(name);
    url.append(segment.as_str());
    url.append("/settings/publishing/");
    let s1 = browser(
        "configure-trusted-publisher",
        "Configure a PyPI trusted publisher",
        "Sign in and add the repository's GitHub Actions workflow as a trusted publisher.",
        url,
    );
    two_steps(s0, s1)
}

fn steps_gomodules(name: &str) -> (v: Vec<SetupStep>)
    ensures
        step_models(v@) == spec_plan_steps(Registry::GoModules, name@),
{
    let mut args: Vec<String> = Vec::new();
    push_text(&mut args, "test");
    push_text(&mut args, "./...");
    assert(texts(args) =~= seq!["test"@, "./..."@]);
    let s0 = check(
        "test-module",
        "Test the Go module",
        "Run all module tests before tagging a semantic version.",
        command("go", args),
    );
    let url = "https://go.dev/ref/mod#publishing-a-module".to_owned();
    let s1 = manual(
        "publish-tag",
        "Push a semantic-version tag",
        "Go modules are published from repository tags; after pushing the tag, request it through proxy.golang.org.",
        url,
    );
    two_steps(s0, s1)
}

fn steps_nuget(name: &str) -> (v: Vec<SetupStep>)
    ensures
        step_models(v@) == spec_plan_steps(Registry::NuGet, name@),
{
    let mut args: Vec<String> = Vec::new();
    push_text(&mut args, "pack");
    push_text(&mut args, "--configuration");
    push_text(&mut args, "Release");
    assert(texts(args) =~= seq!["pack"@, "--configuration"@, "Release"@]);
    let s0 = check(
        "pack-package",
        "Build the NuGet package",
        "Create the package locally without pushing it.",
        command("dotnet", args),
    );
    let url = "https://www.nuget.org/account/TrustedPublishing".to_owned();
    let s1 = browser(
        "configure-trusted-publishing",
        "Configure NuGet trusted publishing",
        "Sign in and add a GitHub Actions federated credential for this package.",
        url,
    );
    two_steps(s0, s1)
}

fn steps_mavencentral(name: &str) -> (v: Vec<SetupStep>)
    ensures
        step_models(v@) == spec_plan_steps(Registry::MavenCentral, name@),
{
    let mut args: Vec<String> = Vec::new();
    push_text(&mut args, "--batch-mode");
    push_text(&mut args, "verify");
    assert(texts(args) =~= seq!["--batch-mode"@, "verify"@]);
    let s0 = check(
        "verify-build",
        "Verify the Maven build",
        "Run the build lifecycle without deploying an artifact.",
        command("mvn", args),
    );
    let url = "https://central.sonatype.com/publishing/namespaces".to_owned();
    let s1 = browser(
        "verify-namespace",
        "Verify a Central namespace",
        "Sign in to the Central Portal and verify the namespace used by the package coordinates.",
        url,
    );
    two_steps(s0, s1)
}

fn steps_packagist(name: &str) -> (v: Vec<SetupStep>)
    ensures
        step_models(v@) == spec_plan_steps(Registry::Packagist, name@),
{
    let mut args: Vec<String> = Vec::new();
    push_text(&mut args, "validate");
    push_text(&mut args, "--strict");
    assert(texts(args) =~= seq!["validate"@, "--strict"@]);
    let s0 = check(
        "validate-package",
        "Validate Composer metadata",
        "Strictly validate composer.json before submitting it.",
        command("composer", args),
    );
    let url = "https://packagist.org/packages/submit".to_owned();
    let s1 = browser(
        "submit-repository",
        "Submit the repository to Packagist",
        "Sign in and submit the public VCS repository URL. Packagist reads package versions from tags.",
        url,
    );
    two_steps(s0, s1)
}

fn plan_steps(registry: Registry, name: &str) -> (v: Vec<SetupStep>)
    ensures
        step_models(v@) == spec_plan_steps(registry, name@),
{
    match registry {
        Registry::Npm => steps_npm(name),
        Registry::CratesIo => steps_cratesio(name),
        Registry::PyPi => steps_pypi(name),
        Registry::GoModules => steps_gomodules(name),
        Registry::NuGet => steps_nuget(name),
        Registry::MavenCentral => steps_mavencentral(name),
        Registry::Packagist => steps_packagist(name),
    }
}

fn trusted_publisher(registry: Registry, repo: &RepositoryInfo) -> (p: Option<
    TrustedPublisherPrefill,
>)
    ensures
        opt_prefill(p) == spec_trusted_publisher(registry, repo@),
{
    if registry == Registry::Npm {
        match (&repo.github_owner, &repo.github_repository, &repo.release_workflow) {
            (Some(owner), Some(repository), Some(workflow)) => Some(
                TrustedPublisherPrefill {
                    provider: "github-actions".to_owned(),
                    organization: owner.clone(),
                    repository: repository.clone(),
                    workflow: workflow.clone(),
                    environment: None,
                },
            ),
            _ => None,
        }
    } else {
        None
    }
}

fn annotated_problems(problems: &Vec<String>, directory: &str) -> (r: Vec<String>)
    ensures
        texts(r) == annotate_problems(texts(*problems), directory@),
{
    let mut out: Vec<String> = Vec::new();
    if text_eq(directory, ".") {
        for i in 0..problems.len()
            invariant
                texts(out) == texts(*problems).take(i as int),
                out@.len() == i,
        {
            let ghost before = out@;
            out.push(problems[i].clone());
            assert forall|k: int| 0 <= k < i + 1 implies #[trigger] out@[k]@ == texts(*problems)[k] by {
                if k < i {
                    assert(out@[k] == before[k]);
                    assert(texts(*problems).take(i as int)[k] == before.map_values(|s: String| s@)[k]);
                }
            }
            assert(texts(out) =~= texts(*problems).take(i + 1));
        }
        assert(texts(*problems).take(problems@.len() as int) =~= texts(*problems));
    } else {
        for i in 0..problems.len()
            invariant
                directory@ != "."@,
                texts(out) == annotate_problems(texts(*problems), directory@).take(i as int),
                out@.len() == i,
        {
            let ghost before = out@;
            let mut p = problems[i].clone();
            p.append(" (manifest directory: ");
            p.append(directory);
            p.append(")");
            out.push(p);
            assert forall|k: int| 0 <= k < i + 1 implies #[trigger] out@[k]@ == annotate_problems(
                texts(*problems),
                directory@,
            )[k] by {
                if k < i {
                    assert(out@[k] == before[k]);
                    assert(annotate_problems(texts(*problems), directory@).take(i as int)[k]
                        == before.map_values(|s: String| s@)[k]);
                }
            }
            assert(texts(out) =~= annotate_problems(texts(*problems), directory@).take(i + 1));
        }
        assert(annotate_problems(texts(*problems), directory@).take(problems@.len() as int)
            =~= annotate_problems(texts(*problems), directory@));
    }
    out
}

/// The setup plan for `package`, which `inspection` found.
pub fn build_plan(inspection: &Inspection, package: &Package) -> (plan: SetupPlan)
    ensures
        plan@ == spec_build_plan(inspection@, package@),
{
    let directory = package_directory(package.manifest.as_str());
    let steps = plan_steps(package.registry, package.name.as_str());
    let publisher = trusted_publisher(package.registry, &inspection.repository);
    let problems = annotated_problems(&package.problems, directory);
    let planned = Package {
        registry: package.registry,
        name: package.name.clone(),
        version: copy_text_option(&package.version),
        manifest: package.manifest.clone(),
        publishable: package.publishable,
        problems,
    };
    SetupPlan {
        schema_version: 1,
        registry: package.registry,
        package: planned,
        repository: copy_repository(&inspection.repository),
        steps,
        trusted_publisher: publisher,
    }
}

/// A plan keeps what inspection found: the package's registry, name,
/// version, manifest and publishability, one problem for each problem found,
/// and the repository coordinates. Its first step validates locally with a
/// command and its second links to the registry; npm's trusted-publisher
/// values are copied from the repository, never invented, and exist only when
/// owner, repository and release workflow are all known.
pub proof fn lemma_plan_keeps_what_inspection_found(
    inspection: InspectionModel,
    package: PackageModel,
)
    ensures
        ({
            let plan = spec_build_plan(inspection, package);
            &&& plan.registry == package.registry
            &&& plan.package.registry == package.registry
            &&& plan.package.name == package.name
            &&& plan.package.version == package.version
            &&& plan.package.manifest == package.manifest
            &&& plan.package.publishable == package.publishable
            &&& plan.package.problems.len() == package.problems.len()
            &&& plan.repository == inspection.repository
            &&& plan.steps.len() == 2
            &&& plan.steps[0].kind == StepKind::Check
            &&& plan.steps[0].command is Some
            &&& plan.steps[1].url is Some
            &&& (plan.trusted_publisher is Some <==> package.registry == Registry::Npm
                && inspection.repository.github_owner is Some
                && inspection.repository.github_repository is Some
                && inspection.repository.release_workflow is Some)
            &&& (plan.trusted_publisher matches Some(p) ==> {
                &&& inspection.repository.github_owner == Some(p.organization)
                &&& inspection.repository.github_repository == Some(p.repository)
                &&& inspection.repository.release_workflow == Some(p.workflow)
                &&& p.environment is None
            })
        }),
{
}

/// Whether a package of `registry` is planned when `selected` registries were
/// asked for; asking for none plans every registry.
pub open spec fn is_selected(selected: Seq<Registry>, registry: Registry) -> bool {
    selected.len() == 0 || selected.contains(registry)
}

/// The plans for the selected packages, in the order of inspection.
pub open spec fn spec_build_plans_for(
    inspection: InspectionModel,
    packages: Seq<PackageModel>,
    selected: Seq<Registry>,
) -> Seq<PlanModel>
    decreases packages.len(),
{
    if packages.len() == 0 {
        seq![]
    } else {
        let earlier = spec_build_plans_for(inspection, packages.drop_last(), selected);
        if is_selected(selected, packages.last().registry) {
            earlier.push(spec_build_plan(inspection, packages.last()))
        } else {
            earlier
        }
    }
}

fn contains_registry(selected: &[Registry], registry: Registry) -> (r: bool)
    ensures
        r == selected@.contains(registry),
{
    for i in 0..selected.len()
        invariant
            forall|k: int| 0 <= k < i ==> selected@[k] != registry,
    {
        if selected[i] == registry {
            return true;
        }
    }
    false
}

/// Build setup plans, restricted to the `selected` registries unless that
/// list is empty.
pub fn build_plans_for(inspection: &Inspection, selected: &[Registry]) -> (plans: Vec<SetupPlan>)
    ensures
        plan_models(plans@) == spec_build_plans_for(
            inspection@,
            inspection@.packages,
            selected@,
        ),
{
    let mut plans: Vec<SetupPlan> = Vec::new();
    let ghost packages = inspection@.packages;
    for i in 0..inspection.packages.len()
        invariant
            packages == inspection@.packages,
            packages.len() == inspection.packages@.len(),
            plan_models(plans@) == spec_build_plans_for(
                inspection@,
                packages.take(i as int),
                selected@,
            ),
    {
        let package = &inspection.packages[i];
        assert(packages.take(i + 1).drop_last() =~= packages.take(i as int));
        assert(packages[i as int] == package@);
        if selected.len() == 0 || contains_registry(selected, package.registry) {
            let plan = build_plan(inspection, package);
            plans.push(plan);
            assert(plan_models(plans@) =~= spec_build_plans_for(
                inspection@,
                packages.take(i as int),
                selected@,
            ).push(plan@));
        }
    }
    assert(packages.take(packages.len() as int) =~= packages);
    plans
}

/// Build setup plans for every package found during inspection.
pub fn build_plans(inspection: &Inspection) -> (plans: Vec<SetupPlan>)
    ensures
        plan_models(plans@) == spec_build_plans_for(
            inspection@,
            inspection@.packages,
            Seq::<Registry>::empty(),
        ),
{
    let none: Vec<Registry> = Vec::new();
    build_plans_for(inspection, none.as_slice())
}

/// Arguments joined by single spaces.
pub open spec fn join_words(words: Seq<Seq<char>>) -> Seq<char>
    decreases words.len(),
{
    if words.len() == 0 {
        seq![]
    } else if words.len() == 1 {
        words[0]
    } else {
        join_words(words.drop_last()) + " "@ + words.last()
    }
}

/// A command as a shell would echo it: the program, a space, and the
/// arguments joined by spaces.
pub open spec fn render_command(c: CommandModel) -> Seq<char> {
    c.program + " "@ + join_words(c.args)
}

/// Whether a step would upload an artifact with `npm publish` or
/// `cargo publish`.
pub open spec fn is_publish_step(step: StepModel) -> bool {
    match step.command {
        Some(c) => render_command(c) == "npm publish"@ || render_command(c) == "cargo publish"@,
        None => false,
    }
}

/// Total number of characters in `words`.
pub open spec fn total_len(words: Seq<Seq<char>>) -> int
    decreases words.len(),
{
    if words.len() == 0 {
        0
    } else {
        total_len(words.drop_last()) + words.last().len()
    }
}

proof fn lemma_join_len(words: Seq<Seq<char>>)
    requires
        words.len() > 0,
    ensures
        join_words(words).len() + 1 == words.len() + total_len(words),
    decreases words.len(),
{
    reveal_strlit(" ");
    if words.len() > 1 {
        lemma_join_len(words.drop_last());
    } else {
        assert(total_len(words.drop_last()) == 0);
    }
}

/// No planned step of any registry uploads an artifact: setup validates and
/// configures, and publication is left to the repository's own release job.
pub proof fn lemma_plan_steps_never_publish(registry: Registry, name: Seq<char>)
    ensures
        forall|k: int|
            0 <= k < spec_plan_steps(registry, name).len() ==> !is_publish_step(
                #[trigger] spec_plan_steps(registry, name)[k],
            ),
{
    reveal_strlit("npm publish");
    reveal_strlit("cargo publish");
    reveal_strlit(" ");
    let steps = spec_plan_steps(registry, name);
    assert(!is_publish_step(steps[1]));
    let c = steps[0].command.unwrap();
    reveal_strlit("npm");
    reveal_strlit("cargo");
    reveal_strlit("python");
    reveal_strlit("go");
    reveal_strlit("dotnet");
    reveal_strlit("mvn");
    reveal_strlit("composer");
    lemma_join_len(c.args);
    reveal_with_fuel(total_len, 6);
    match registry {
        Registry::Npm => {
            reveal_strlit("pkg");
            reveal_strlit("get");
            reveal_strlit("name");
            reveal_strlit("version");
            reveal_strlit("repository");
            assert(render_command(c).len() != "npm publish"@.len());
        },
        Registry::CratesIo => {
            reveal_strlit("publish");
            reveal_strlit("--dry-run");
            assert(render_command(c).len() != "cargo publish"@.len());
        },
        Registry::PyPi => {
            reveal_strlit("-m");
            reveal_strlit("build");
            assert(render_command(c)[0] == 'p');
        },
        Registry::GoModules => {
            reveal_strlit("test");
            reveal_strlit("./...");
            assert(render_command(c)[0] == 'g');
        },
        Registry::NuGet => {
            assert(render_command(c)[0] == 'd');
        },
        Registry::MavenCentral => {
            assert(render_command(c)[0] == 'm');
        },
        Registry::Packagist => {
            assert(render_command(c)[1] == 'o');
        },
    }
    assert(!is_publish_step(steps[0]));
}

/// Each registry's local check is exactly its documented command, and it is
/// the only command of the plan: `npm pkg get name version repository`,
/// `cargo publish --dry-run`, `python -m build`, `go test ./...`,
/// `dotnet pack --configuration Release`, `mvn --batch-mode verify` and
/// `composer validate --strict`. None of them deploys, pushes or uploads:
/// no argument is `deploy`, `push` or `upload`, and `publish` comes only
/// with `--dry-run`.
pub proof fn lemma_checks_are_the_documented_commands(registry: Registry, name: Seq<char>)
    ensures
        spec_plan_steps(registry, name).len() == 2,
        spec_plan_steps(registry, name)[1].command is None,
        spec_plan_steps(registry, name)[0].command == Some(
            match registry {
                Registry::Npm => CommandModel {
                    program: "npm"@,
                    args: seq!["pkg"@, "get"@, "name"@, "version"@, "repository"@],
                },
                Registry::CratesIo => CommandModel {
                    program: "cargo"@,
                    args: seq!["publish"@, "--dry-run"@],
                },
                Registry::PyPi => CommandModel { program: "python"@, args: seq!["-m"@, "build"@] },
                Registry::GoModules => CommandModel {
                    program: "go"@,
                    args: seq!["test"@, "./..."@],
                },
                Registry::NuGet => CommandModel {
                    program: "dotnet"@,
                    args: seq!["pack"@, "--configuration"@, "Release"@],
                },
                Registry::MavenCentral => CommandModel {
                    program: "mvn"@,
                    args: seq!["--batch-mode"@, "verify"@],
                },
                Registry::Packagist => CommandModel {
                    program: "composer"@,
                    args: seq!["validate"@, "--strict"@],
                },
            },
        ),
        forall|k: int|
            0 <= k < spec_plan_steps(registry, name).len() && #[trigger] spec_plan_steps(
                registry,
                name,
            )[k].command is Some ==> {
                let args = spec_plan_steps(registry, name)[k].command->0.args;
                &&& !args.contains("deploy"@)
                &&& !args.contains("push"@)
                &&& !args.contains("upload"@)
                &&& (args.contains("publish"@) ==> args.contains("--dry-run"@))
            },
{
    let steps = spec_plan_steps(registry, name);
    let args = steps[0].command->0.args;
    reveal_strlit("deploy");
    reveal_strlit("push");
    reveal_strlit("upload");
    reveal_strlit("publish");
    reveal_strlit("--dry-run");
    reveal_strlit("pkg");
    reveal_strlit("get");
    reveal_strlit("name");
    reveal_strlit("version");
    reveal_strlit("repository");
    reveal_strlit("-m");
    reveal_strlit("build");
    reveal_strlit("test");
    reveal_strlit("./...");
    reveal_strlit("pack");
    reveal_strlit("--configuration");
    reveal_strlit("Release");
    reveal_strlit("--batch-mode");
    reveal_strlit("verify");
    reveal_strlit("validate");
    reveal_strlit("--strict");
    assert forall|w: Seq<char>|
        w == "deploy"@ || w == "push"@ || w == "upload"@ || (w == "publish"@ && registry
            != Registry::CratesIo) implies !#[trigger] args.contains(w) by {
        if args.contains(w) {
            let i = choose|i: int| 0 <= i < args.len() && args[i] == w;
            assert(args[i].len() == w.len());
            assert(args[i][0] == w[0]);
            assert(args[i][1] == w[1]);
        }
    }
    if registry == Registry::CratesIo {
        assert(args[1] == "--dry-run"@);
        assert(args.contains("--dry-run"@));
    }
    assert(steps[1].command is None);
}

/// Every plan is the plan of one inspected package of a selected registry.
pub proof fn lemma_plans_come_from_selected_packages(
    inspection: InspectionModel,
    packages: Seq<PackageModel>,
    selected: Seq<Registry>,
)
    ensures
        forall|k: int|
            0 <= k < spec_build_plans_for(inspection, packages, selected).len() ==> exists|j: int|
                0 <= j < packages.len() && is_selected(selected, packages[j].registry)
                    && #[trigger] spec_build_plans_for(inspection, packages, selected)[k]
                    == spec_build_plan(inspection, packages[j]),
    decreases packages.len(),
{
    if packages.len() > 0 {
        let earlier = packages.drop_last();
        lemma_plans_come_from_selected_packages(inspection, earlier, selected);
        let plans = spec_build_plans_for(inspection, packages, selected);
        assert forall|k: int| 0 <= k < plans.len() implies exists|j: int|
            0 <= j < packages.len() && is_selected(selected, packages[j].registry) && #[trigger] plans[k]
                == spec_build_plan(inspection, packages[j]) by {
            let before = spec_build_plans_for(inspection, earlier, selected);
            if k < before.len() {
                let j = choose|j: int|
                    0 <= j < earlier.len() && is_selected(selected, earlier[j].registry)
                        && before[k] == spec_build_plan(inspection, earlier[j]);
                assert(packages[j] == earlier[j]);
            } else {
                assert(plans[k] == spec_build_plan(inspection, packages[packages.len() - 1]));
            }
        }
    }
}

/// No setup plan contains a command that uploads an artifact (`npm publish`
/// or `cargo publish`), whatever the repository holds.
pub proof fn lemma_plans_never_publish(inspection: InspectionModel, selected: Seq<Registry>)
    ensures
        forall|k: int, s: int|
            0 <= k < spec_build_plans_for(inspection, inspection.packages, selected).len() && 0 <= s
                < spec_build_plans_for(inspection, inspection.packages, selected)[k].steps.len()
                ==> !is_publish_step(
                #[trigger] spec_build_plans_for(inspection, inspection.packages, selected)[k].steps[s],
            ),
{
    let plans = spec_build_plans_for(inspection, inspection.packages, selected);
    lemma_plans_come_from_selected_packages(inspection, inspection.packages, selected);
    assert forall|k: int, s: int|
        0 <= k < plans.len() && 0 <= s < plans[k].steps.len() implies !is_publish_step(
        #[trigger] plans[k].steps[s],
    ) by {
        let j = choose|j: int|
            0 <= j < inspection.packages.len() && is_selected(
                selected,
                inspection.packages[j].registry,
            ) && plans[k] == spec_build_plan(inspection, inspection.packages[j]);
        let p = inspection.packages[j];
        lemma_plan_steps_never_publish(p.registry, p.name);
    }
}

} // verus!
