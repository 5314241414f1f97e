//! Setup execution: the decisions of a setup run, as a state machine that
//! the caller drives by running commands, operating the browser and asking
//! the user, then reporting back what happened.

use vstd::prelude::*;
use vstd::string::StringExecFns;

use crate::model::{
    opt_command, opt_text, texts, PlanModel, Registry, RepositoryInfo, RepositoryModel, SetupPlan,
    StepModel,
};
use crate::text::{
    ascii_lower, chars_of, decimal, decimal_text, ends_with, join_strings, join_with, lower_char,
    text_eq, text_from_chars, trim, trim_range,
};

verus! {

// ---------------------------------------------------------------------------
// Options and paths
// ---------------------------------------------------------------------------

/// How a setup run was asked for on the command line.
#[derive(Debug, Clone, PartialEq, Eq)]
pub struct ExecuteOptions {
    pub repository: String,
    pub browser_profile: String,
    pub browser_channel: String,
    /// Run the checks and open the browser; otherwise the run is a dry run.
    pub execute: bool,
    /// Confirm npm's form submission in advance.
    pub yes: bool,
    /// Print the setup URL instead of opening a browser.
    pub no_browser: bool,
    pub verbose: bool,
}

/// `Path::join` with a relative path: a `/` is put between the two unless
/// `base` is empty or already ends with `/`.
pub open spec fn spec_join_path(base: Seq<char>, relative: Seq<char>) -> Seq<char> {
    if base.len() == 0 || ends_with(base, "/"@) {
        base + relative
    } else {
        base + "/"@ + relative
    }
}

/// Joins a relative path onto `base`.
pub fn join_path(base: &str, relative: &str) -> (r: String)
    ensures
        r@ == spec_join_path(base@, relative@),
{
    proof {
        reveal_strlit("/");
    }
    let cs = chars_of(base);
    let mut out = base.to_owned();
    let needs_separator = cs.len() > 0 && cs[cs.len() - 1] != '/';
    proof {
        assert("/"@ =~= seq!['/']);
        if cs@.len() > 0 {
            assert(base@.skip(base@.len() - 1) =~= seq![cs@[cs@.len() - 1]]);
            if ends_with(base@, "/"@) {
                assert(base@.skip(base@.len() - 1)[0] == "/"@[0]);
            }
        }
        assert(needs_separator == !(base@.len() == 0 || ends_with(base@, "/"@)));
    }
    if needs_separator {
        out.append("/");
    }
    out.append(relative);
    out
}

/// Where the dedicated browser profile lives inside a repository.
pub open spec fn spec_default_browser_profile(repository: Seq<char>) -> Seq<char> {
    spec_join_path(repository, ".package-registry-manager/browser-profile"@)
}

/// The dedicated, reusable browser profile of `repository`, so that the
/// user's normal browser profile is never automated.
pub fn default_browser_profile(repository: &str) -> (r: String)
    ensures
        r@ == spec_default_browser_profile(repository@),
{
    join_path(repository, ".package-registry-manager/browser-profile")
}

// ---------------------------------------------------------------------------
// Confirmation
// ---------------------------------------------------------------------------

/// An answer accepts when, trimmed and lowercased, it is `y` or `yes`.
pub open spec fn is_affirmative_answer(answer: Seq<char>) -> bool {
    let a = trim(answer).map_values(|c: char| ascii_lower(c));
    a == "y"@ || a == "yes"@
}

/// Whether the user's answer to a yes/no question accepts.
pub fn is_affirmative(answer: &str) -> (r: bool)
    ensures
        r == is_affirmative_answer(answer@),
{
    let cs = chars_of(answer);
    let (a, b) = trim_range(&cs, 0, cs.len());
    assert(cs@.subrange(0, cs@.len() as int) =~= cs@);
    let ghost t = cs@.subrange(a as int, b as int);
    let mut lowered: Vec<char> = Vec::new();
    for k in a..b
        invariant
            a <= b <= cs@.len(),
            t == cs@.subrange(a as int, b as int),
            lowered@ == t.take(k - a).map_values(|c: char| ascii_lower(c)),
    {
        lowered.push(lower_char(cs[k]));
        assert(t.take(k + 1 - a) =~= t.take(k - a).push(cs@[k as int]));
        assert(lowered@ =~= t.take(k + 1 - a).map_values(|c: char| ascii_lower(c)));
    }
    assert(t.take(b - a) =~= t);
    let text = text_from_chars(lowered.as_slice());
    text_eq(text.as_str(), "y") || text_eq(text.as_str(), "yes")
}

// ---------------------------------------------------------------------------
// The setup run
// ---------------------------------------------------------------------------

/// Where a setup run stands.
#[derive(Debug, Clone, Copy, PartialEq, Eq, Structural)]
pub enum SetupState {
    /// Nothing has happened yet.
    Start,
    /// The check of step `index` is running.
    AwaitCommand { index: usize },
    /// The registry page is being opened for the user to sign in.
    AwaitBrowser,
    /// The npm form is being filled; `retried` once it was filled a second
    /// time.
    AwaitPrefill { retried: bool },
    /// The user is asked whether to submit the form.
    AwaitConfirmation,
    /// The form is being submitted.
    AwaitSubmission,
    /// The user reviews the registry's answer.
    AwaitReview,
    /// The run is over.
    Done,
}

/// What the caller reports after carrying out an action.
#[derive(Debug, Clone, Copy, PartialEq, Eq, Structural)]
pub enum SetupEvent {
    /// The run begins.
    Begin,
    /// A check exited with `code`.
    CommandExited { code: i32 },
    /// The registry page is open and the user pressed Enter.
    BrowserReady,
    /// The form was filled; `nothing_filled` when the page reported an empty
    /// list of filled fields.
    FormFilled { nothing_filled: bool },
    /// The user answered the submission question.
    Confirmed { accepted: bool },
    /// The submission was attempted; `submitted` when the page reported it.
    FormSubmitted { submitted: bool },
    /// The user finished reviewing.
    Reviewed,
}

/// What the caller is to do next.
#[derive(Debug, Clone, PartialEq, Eq)]
pub enum SetupAction {
    /// End the run with this error.
    Fail { message: String },
    /// End the run successfully, first printing `notice` when there is one.
    Finish { notice: Option<String> },
    /// Run the command of plan step `index` in the package directory.
    RunCommand { index: usize },
    /// Open the dedicated browser at `url` and wait for the user to sign in.
    OpenBrowser { url: String },
    /// Fill the npm trusted-publisher form without submitting it.
    FillForm,
    /// Show the last fill result first when `show_fill_result`, then fill the
    /// form again and submit it.
    SubmitForm { show_fill_result: bool },
    /// Wait half a second and fill the form again.
    PauseAndRefill,
    /// Show the fill result and ask whether to submit.
    AskConfirmation,
    /// Wait for the user to review the registry's answer.
    AwaitReview,
}

pub enum SetupActionModel {
    Fail(Seq<char>),
    Finish(Option<Seq<char>>),
    RunCommand(nat),
    OpenBrowser(Seq<char>),
    FillForm,
    SubmitForm(bool),
    PauseAndRefill,
    AskConfirmation,
    AwaitReview,
}

impl View for SetupAction {
    type V = SetupActionModel;

    open spec fn view(&self) -> SetupActionModel {
        match self {
            SetupAction::Fail { message } => SetupActionModel::Fail(message@),
            SetupAction::Finish { notice } => SetupActionModel::Finish(opt_text(*notice)),
            SetupAction::RunCommand { index } => SetupActionModel::RunCommand(*index as nat),
            SetupAction::OpenBrowser { url } => SetupActionModel::OpenBrowser(url@),
            SetupAction::FillForm => SetupActionModel::FillForm,
            SetupAction::SubmitForm { show_fill_result } => SetupActionModel::SubmitForm(
                *show_fill_result,
            ),
            SetupAction::PauseAndRefill => SetupActionModel::PauseAndRefill,
            SetupAction::AskConfirmation => SetupActionModel::AskConfirmation,
            SetupAction::AwaitReview => SetupActionModel::AwaitReview,
        }
    }
}

/// The options that decide a run.
pub struct RunChoice {
    pub execute: bool,
    pub yes: bool,
    pub no_browser: bool,
}

pub open spec fn run_choice(o: ExecuteOptions) -> RunChoice {
    RunChoice { execute: o.execute, yes: o.yes, no_browser: o.no_browser }
}

pub open spec fn dry_run_notice() -> Seq<char> {
    "Dry run only. Re-run with --execute to perform checks and open the registry."@
}

/// The repository identities that npm trusted publishing needs and the
/// inspection did not find, in the order owner, repository, workflow.
pub open spec fn missing_identity(repo: RepositoryModel) -> Seq<Seq<char>> {
    (if repo.github_owner is None {
        seq!["GitHub owner"@]
    } else {
        seq![]
    }) + (if repo.github_repository is None {
        seq!["GitHub repository"@]
    } else {
        seq![]
    }) + (if repo.release_workflow is None {
        seq!["release workflow"@]
    } else {
        seq![]
    })
}

/// Why npm setup cannot fill the trusted-publisher form: the missing
/// identities, named one by one.
pub open spec fn missing_publisher_message(repo: RepositoryModel) -> Seq<char> {
    if missing_identity(repo).len() == 0 {
        "npm setup has no trusted-publisher values in this plan"@
    } else {
        "npm setup needs repository metadata that was not found: "@ + join_with(
            missing_identity(repo),
            ", "@,
        )
    }
}

pub open spec fn not_submitted_message() -> Seq<char> {
    "the form was not submitted; review the visible browser and submit manually"@
}

pub open spec fn unexpected_event_message() -> Seq<char> {
    "unexpected setup event"@
}

/// `<name> is not publishable: <problems joined by "; ">`.
pub open spec fn not_publishable_message(plan: PlanModel) -> Seq<char> {
    plan.package.name + " is not publishable: "@ + join_with(plan.package.problems, "; "@)
}

/// The decimal representation of a signed number.
pub open spec fn signed_decimal(n: int) -> Seq<char> {
    if n < 0 {
        "-"@ + decimal((-n) as nat)
    } else {
        decimal(n as nat)
    }
}

/// The program of step `index`, if that step runs one.
pub open spec fn step_program(steps: Seq<StepModel>, index: int) -> Seq<char> {
    if 0 <= index < steps.len() && steps[index].command is Some {
        steps[index].command->0.program
    } else {
        seq![]
    }
}

/// `<program> exited with status <code>`.
pub open spec fn exit_message(program: Seq<char>, code: int) -> Seq<char> {
    program + " exited with status "@ + signed_decimal(code)
}

/// The first step at or after `from` that runs a command, or `-1`.
pub open spec fn next_command(steps: Seq<StepModel>, from: int) -> int
    decreases steps.len() - from,
{
    if from < 0 || from >= steps.len() {
        -1
    } else if steps[from].command is Some {
        from
    } else {
        next_command(steps, from + 1)
    }
}

/// The URL of the first step that has one.
pub open spec fn first_url(steps: Seq<StepModel>, from: int) -> Option<Seq<char>>
    decreases steps.len() - from,
{
    if from < 0 || from >= steps.len() {
        None
    } else if steps[from].url is Some {
        steps[from].url
    } else {
        first_url(steps, from + 1)
    }
}

/// After the checks before step `from` passed: the next check, or the
/// registry page.
pub open spec fn continue_from(plan: PlanModel, choice: RunChoice, from: int) -> (
    SetupState,
    SetupActionModel,
) {
    let next = next_command(plan.steps, from);
    if next >= 0 {
        (SetupState::AwaitCommand { index: next as usize }, SetupActionModel::RunCommand(next as nat))
    } else {
        match first_url(plan.steps, 0) {
            None => (SetupState::Done, SetupActionModel::Finish(None)),
            Some(url) => if choice.no_browser {
                (SetupState::Done, SetupActionModel::Finish(Some("Open "@ + url)))
            } else {
                (SetupState::AwaitBrowser, SetupActionModel::OpenBrowser(url))
            },
        }
    }
}

/// One decision of a setup run: from the current state and what just
/// happened, the next state and what to do.
pub open spec fn spec_setup_step(
    plan: PlanModel,
    choice: RunChoice,
    state: SetupState,
    event: SetupEvent,
) -> (SetupState, SetupActionModel) {
    match (state, event) {
        (SetupState::Start, SetupEvent::Begin) => if !plan.package.publishable {
            (SetupState::Done, SetupActionModel::Fail(not_publishable_message(plan)))
        } else if !choice.execute {
            (SetupState::Done, SetupActionModel::Finish(Some(dry_run_notice())))
        } else {
            continue_from(plan, choice, 0)
        },
        (SetupState::AwaitCommand { index }, SetupEvent::CommandExited { code }) => if code != 0 {
            (
                SetupState::Done,
                SetupActionModel::Fail(exit_message(step_program(plan.steps, index as int), code as int)),
            )
        } else {
            continue_from(plan, choice, index + 1)
        },
        (SetupState::AwaitBrowser, SetupEvent::BrowserReady) => if plan.registry == Registry::Npm {
            if plan.trusted_publisher is Some {
                (SetupState::AwaitPrefill { retried: false }, SetupActionModel::FillForm)
            } else {
                (SetupState::Done, SetupActionModel::Fail(missing_publisher_message(plan.repository)))
            }
        } else {
            (SetupState::AwaitReview, SetupActionModel::AwaitReview)
        },
        (
            SetupState::AwaitPrefill { retried },
            SetupEvent::FormFilled { nothing_filled },
        ) => if nothing_filled && !retried {
            (SetupState::AwaitPrefill { retried: true }, SetupActionModel::PauseAndRefill)
        } else if choice.yes {
            (SetupState::AwaitSubmission, SetupActionModel::SubmitForm(true))
        } else {
            (SetupState::AwaitConfirmation, SetupActionModel::AskConfirmation)
        },
        (SetupState::AwaitConfirmation, SetupEvent::Confirmed { accepted }) => if accepted {
            (SetupState::AwaitSubmission, SetupActionModel::SubmitForm(false))
        } else {
            (SetupState::AwaitReview, SetupActionModel::AwaitReview)
        },
        (SetupState::AwaitSubmission, SetupEvent::FormSubmitted { submitted }) => if submitted {
            (SetupState::AwaitReview, SetupActionModel::AwaitReview)
        } else {
            (SetupState::Done, SetupActionModel::Fail(not_submitted_message()))
        },
        (SetupState::AwaitReview, SetupEvent::Reviewed) => (
            SetupState::Done,
            SetupActionModel::Finish(None),
        ),
        _ => (SetupState::Done, SetupActionModel::Fail(unexpected_event_message())),
    }
}

proof fn lemma_next_command(steps: Seq<StepModel>, from: int)
    ensures
        next_command(steps, from) >= 0 ==> from <= next_command(steps, from) < steps.len()
            && steps[next_command(steps, from)].command is Some,
    decreases steps.len() - from,
{
    if 0 <= from < steps.len() && steps[from].command is None {
        lemma_next_command(steps, from + 1);
    }
}

/// A dry run (setup without `--execute`) of a publishable package ends at
/// once with the dry-run notice, and nothing that follows runs a command or
/// opens a browser.
pub proof fn lemma_dry_run_does_nothing(plan: PlanModel, choice: RunChoice, event: SetupEvent)
    requires
        plan.package.publishable,
        !choice.execute,
    ensures
        spec_setup_step(plan, choice, SetupState::Start, SetupEvent::Begin) == (
            SetupState::Done,
            SetupActionModel::Finish(Some(dry_run_notice())),
        ),
        spec_setup_step(plan, choice, SetupState::Done, event) == (
            SetupState::Done,
            SetupActionModel::Fail(unexpected_event_message()),
        ),
{
}

/// A package that cannot be published is refused before anything runs.
pub proof fn lemma_unpublishable_is_refused(plan: PlanModel, choice: RunChoice)
    requires
        !plan.package.publishable,
    ensures
        spec_setup_step(plan, choice, SetupState::Start, SetupEvent::Begin) == (
            SetupState::Done,
            SetupActionModel::Fail(not_publishable_message(plan)),
        ),
{
}

/// Only the plan's own checks are run: a command to run is always the
/// command of a step of the plan, and each check comes after the previous
/// one, so none runs twice.
pub proof fn lemma_runs_only_plan_commands(
    plan: PlanModel,
    choice: RunChoice,
    state: SetupState,
    event: SetupEvent,
)
    ensures
        spec_setup_step(plan, choice, state, event).1 matches SetupActionModel::RunCommand(i) ==> {
            &&& i < plan.steps.len()
            &&& plan.steps[i as int].command is Some
            &&& spec_setup_step(plan, choice, state, event).0 == (SetupState::AwaitCommand {
                index: i as usize,
            })
            &&& (state matches SetupState::AwaitCommand { index } ==> index < i)
        },
{
    match (state, event) {
        (SetupState::Start, SetupEvent::Begin) => {
            lemma_next_command(plan.steps, 0);
        },
        (SetupState::AwaitCommand { index }, SetupEvent::CommandExited { code }) => {
            lemma_next_command(plan.steps, index + 1);
        },
        _ => {},
    }
}

/// The npm form is submitted only with the user's consent: `--yes`, or an
/// accepted confirmation.
pub proof fn lemma_submission_needs_consent(
    plan: PlanModel,
    choice: RunChoice,
    state: SetupState,
    event: SetupEvent,
)
    ensures
        spec_setup_step(plan, choice, state, event).1 is SubmitForm ==> choice.yes || event == (
            SetupEvent::Confirmed { accepted: true }),
{
}

/// The form is filled only for npm, and only with the repository's
/// trusted-publisher values.
pub proof fn lemma_form_only_for_npm(
    plan: PlanModel,
    choice: RunChoice,
    state: SetupState,
    event: SetupEvent,
)
    ensures
        spec_setup_step(plan, choice, state, event).1 is FillForm ==> plan.registry == Registry::Npm
            && plan.trusted_publisher is Some,
{
}

/// With `--no-browser` no browser is ever opened: the setup URL is printed
/// instead, after the checks passed.
pub proof fn lemma_no_browser_never_opens_one(
    plan: PlanModel,
    choice: RunChoice,
    state: SetupState,
    event: SetupEvent,
)
    requires
        choice.no_browser,
    ensures
        !(spec_setup_step(plan, choice, state, event).1 is OpenBrowser),
        spec_setup_step(plan, choice, state, event).0 != SetupState::AwaitBrowser,
{
}

/// An npm run without trusted-publisher values stops when the registry page
/// is ready, and its message names exactly the repository identities that
/// are missing: each of the GitHub owner, the GitHub repository and the
/// release workflow is named if and only if the inspection did not find it.
pub proof fn lemma_missing_metadata_is_named(plan: PlanModel, choice: RunChoice)
    requires
        plan.registry == Registry::Npm,
        plan.trusted_publisher is None,
    ensures
        spec_setup_step(plan, choice, SetupState::AwaitBrowser, SetupEvent::BrowserReady) == (
            SetupState::Done,
            SetupActionModel::Fail(missing_publisher_message(plan.repository)),
        ),
        missing_identity(plan.repository).contains("GitHub owner"@)
            <==> plan.repository.github_owner is None,
        missing_identity(plan.repository).contains("GitHub repository"@)
            <==> plan.repository.github_repository is None,
        missing_identity(plan.repository).contains("release workflow"@)
            <==> plan.repository.release_workflow is None,
{
    reveal_strlit("GitHub owner");
    reveal_strlit("GitHub repository");
    reveal_strlit("release workflow");
    let repo = plan.repository;
    let m = missing_identity(repo);
    assert("GitHub owner"@ != "GitHub repository"@) by {
        assert("GitHub owner"@.len() != "GitHub repository"@.len());
    }
    assert("GitHub owner"@ != "release workflow"@) by {
        assert("GitHub owner"@.len() != "release workflow"@.len());
    }
    assert("GitHub repository"@ != "release workflow"@) by {
        assert("GitHub repository"@.len() != "release workflow"@.len());
    }
    let a: Seq<Seq<char>> = if repo.github_owner is None {
        seq!["GitHub owner"@]
    } else {
        seq![]
    };
    let b: Seq<Seq<char>> = if repo.github_repository is None {
        seq!["GitHub repository"@]
    } else {
        seq![]
    };
    let c: Seq<Seq<char>> = if repo.release_workflow is None {
        seq!["release workflow"@]
    } else {
        seq![]
    };
    assert(m == a + b + c);
    assert forall|x: Seq<char>| m.contains(x) <==> (a.contains(x) || b.contains(x) || c.contains(x)) by {
        if m.contains(x) {
            let k = choose|k: int| 0 <= k < m.len() && m[k] == x;
            if k < a.len() {
                assert(a[k] == x);
            } else if k < a.len() + b.len() {
                assert(b[k - a.len()] == x);
            } else {
                assert(c[k - a.len() - b.len()] == x);
            }
        }
        if a.contains(x) {
            let k = choose|k: int| 0 <= k < a.len() && a[k] == x;
            assert(m[k] == x);
        }
        if b.contains(x) {
            let k = choose|k: int| 0 <= k < b.len() && b[k] == x;
            assert(m[a.len() + k] == x);
        }
        if c.contains(x) {
            let k = choose|k: int| 0 <= k < c.len() && c[k] == x;
            assert(m[a.len() + b.len() + k] == x);
        }
    }
    if repo.github_owner is None {
        assert(a[0] == "GitHub owner"@);
    }
    if repo.github_repository is None {
        assert(b[0] == "GitHub repository"@);
    }
    if repo.release_workflow is None {
        assert(c[0] == "release workflow"@);
    }
}

/// A check that fails ends the run: whatever the plan and the options, when
/// the check of step `index` exits with a status other than zero the run is
/// over and fails with `<program> exited with status <code>`, and only a
/// zero status lets the run go on (to the next check, or to the registry).
pub proof fn lemma_failed_check_ends_the_run(
    plan: PlanModel,
    choice: RunChoice,
    index: usize,
    code: i32,
)
    ensures
        code != 0 ==> spec_setup_step(
            plan,
            choice,
            SetupState::AwaitCommand { index },
            SetupEvent::CommandExited { code },
        ) == (
            SetupState::Done,
            SetupActionModel::Fail(
                step_program(plan.steps, index as int) + " exited with status "@ + signed_decimal(
                    code as int,
                ),
            ),
        ),
        code == 0 ==> !(spec_setup_step(
            plan,
            choice,
            SetupState::AwaitCommand { index },
            SetupEvent::CommandExited { code },
        ).1 is Fail),
{
}

/// What holds of every state that a run reaches from `Start`: the form is
/// worked on only in npm runs that have trusted-publisher values, and a run
/// waits only on the command of one of the plan's steps.
pub open spec fn run_state_valid(plan: PlanModel, state: SetupState) -> bool {
    match state {
        SetupState::AwaitPrefill { .. }
        | SetupState::AwaitConfirmation
        | SetupState::AwaitSubmission => plan.registry == Registry::Npm && plan.trusted_publisher is Some,
        SetupState::AwaitCommand { index } => index < plan.steps.len()
            && plan.steps[index as int].command is Some,
        _ => true,
    }
}

/// Every decision keeps a run valid, starting from `Start`; so in every run,
/// whatever the events, the form is filled or submitted only for an npm
/// package with trusted-publisher values.
pub proof fn lemma_setup_step_keeps_run_valid(
    plan: PlanModel,
    choice: RunChoice,
    state: SetupState,
    event: SetupEvent,
)
    requires
        plan.steps.len() <= usize::MAX,
        run_state_valid(plan, state),
    ensures
        run_state_valid(plan, SetupState::Start),
        run_state_valid(plan, spec_setup_step(plan, choice, state, event).0),
        spec_setup_step(plan, choice, state, event).1 is SubmitForm ==> plan.registry
            == Registry::Npm && plan.trusted_publisher is Some,
        spec_setup_step(plan, choice, state, event).1 is FillForm ==> plan.registry
            == Registry::Npm && plan.trusted_publisher is Some,
{
    match (state, event) {
        (SetupState::Start, SetupEvent::Begin) => {
            lemma_next_command(plan.steps, 0);
        },
        (SetupState::AwaitCommand { index }, SetupEvent::CommandExited { code }) => {
            lemma_next_command(plan.steps, index + 1);
        },
        _ => {},
    }
}

fn signed_decimal_text(n: i32) -> (r: String)
    ensures
        r@ == signed_decimal(n as int),
{
    let wide: i64 = n as i64;
    if wide < 0 {
        let magnitude: i64 = -wide;
        let digits = decimal_text(magnitude as usize);
        let mut out = "-".to_owned();
        out.append(digits.as_str());
        out
    } else {
        decimal_text(wide as usize)
    }
}

fn next_command_from(steps: &Vec<crate::model::SetupStep>, from: usize) -> (r: Option<usize>)
    ensures
        match r {
            Some(i) => i == next_command(crate::model::step_models(steps@), from as int),
            None => next_command(crate::model::step_models(steps@), from as int) == -1,
        },
{
    let ghost models = crate::model::step_models(steps@);
    let mut k = from;
    while k < steps.len()
        invariant
            models == crate::model::step_models(steps@),
            from <= k,
            next_command(models, from as int) == next_command(models, k as int),
        decreases steps@.len() - k,
    {
        if steps[k].command.is_some() {
            assert(models[k as int] == steps@[k as int]@);
            return Some(k);
        }
        assert(models[k as int] == steps@[k as int]@);
        k = k + 1;
    }
    None
}

fn first_url_of(steps: &Vec<crate::model::SetupStep>) -> (r: Option<String>)
    ensures
        opt_text(r) == first_url(crate::model::step_models(steps@), 0),
{
    let ghost models = crate::model::step_models(steps@);
    let mut k: usize = 0;
    while k < steps.len()
        invariant
            models == crate::model::step_models(steps@),
            first_url(models, 0) == first_url(models, k as int),
        decreases steps@.len() - k,
    {
        assert(models[k as int] == steps@[k as int]@);
        match &steps[k].url {
            Some(url) => {
                return Some(url.clone());
            },
            None => {},
        }
        k = k + 1;
    }
    None
}

fn continue_run(plan: &SetupPlan, options: &ExecuteOptions, from: usize) -> (r: (
    SetupState,
    SetupAction,
))
    ensures
        (r.0, r.1@) == continue_from(plan@, run_choice(*options), from as int),
{
    match next_command_from(&plan.steps, from) {
        Some(index) => (SetupState::AwaitCommand { index }, SetupAction::RunCommand { index }),
        None => match first_url_of(&plan.steps) {
            None => (SetupState::Done, SetupAction::Finish { notice: None }),
            Some(url) => {
                if options.no_browser {
                    let mut notice = "Open ".to_owned();
                    notice.append(url.as_str());
                    (SetupState::Done, SetupAction::Finish { notice: Some(notice) })
                } else {
                    (SetupState::AwaitBrowser, SetupAction::OpenBrowser { url })
                }
            },
        },
    }
}

fn missing_identity_names(repo: &RepositoryInfo) -> (v: Vec<String>)
    ensures
        texts(v) == missing_identity(repo@),
{
    let mut v: Vec<String> = Vec::new();
    if repo.github_owner.is_none() {
        v.push("GitHub owner".to_owned());
    }
    let ghost first = v@;
    if repo.github_repository.is_none() {
        v.push("GitHub repository".to_owned());
    }
    let ghost second = v@;
    if repo.release_workflow.is_none() {
        v.push("release workflow".to_owned());
    }
    proof {
        let a: Seq<Seq<char>> = if repo@.github_owner is None {
            seq!["GitHub owner"@]
        } else {
            seq![]
        };
        let b: Seq<Seq<char>> = if repo@.github_repository is None {
            seq!["GitHub repository"@]
        } else {
            seq![]
        };
        assert(first.map_values(|s: String| s@) =~= a);
        assert(second.map_values(|s: String| s@) =~= a + b);
        assert(texts(v) =~= missing_identity(repo@));
    }
    v
}

fn missing_publisher(repo: &RepositoryInfo) -> (m: String)
    ensures
        m@ == missing_publisher_message(repo@),
{
    let names = missing_identity_names(repo);
    if names.len() == 0 {
        "npm setup has no trusted-publisher values in this plan".to_owned()
    } else {
        let listed = join_strings(&names, ", ");
        let mut m = "npm setup needs repository metadata that was not found: ".to_owned();
        m.append(listed.as_str());
        m
    }
}

fn not_publishable(plan: &SetupPlan) -> (m: String)
    ensures
        m@ == not_publishable_message(plan@),
{
    let problems = join_strings(&plan.package.problems, "; ");
    let mut m = plan.package.name.clone();
    m.append(" is not publishable: ");
    m.append(problems.as_str());
    m
}

fn command_failed(plan: &SetupPlan, index: usize, code: i32) -> (m: String)
    ensures
        m@ == exit_message(step_program(crate::model::step_models(plan.steps@), index as int), code as int),
{
    let ghost models = crate::model::step_models(plan.steps@);
    let mut m = if index < plan.steps.len() {
        assert(models[index as int] == plan.steps@[index as int]@);
        match &plan.steps[index].command {
            Some(command) => command.program.clone(),
            None => String::new(),
        }
    } else {
        String::new()
    };
    m.append(" exited with status ");
    let digits = signed_decimal_text(code);
    m.append(digits.as_str());
    m
}

/// Decides the next step of a setup run for `plan`: the caller carries out
/// the returned action, then reports what happened as the next event, until
/// the action is `Finish` or `Fail`.
pub fn setup_step(
    plan: &SetupPlan,
    options: &ExecuteOptions,
    state: SetupState,
    event: SetupEvent,
) -> (r: (SetupState, SetupAction))
    ensures
        (r.0, r.1@) == spec_setup_step(plan@, run_choice(*options), state, event),
{
    match (state, event) {
        (SetupState::Start, SetupEvent::Begin) => {
            if !plan.package.publishable {
                (SetupState::Done, SetupAction::Fail { message: not_publishable(plan) })
            } else if !options.execute {
                (
                    SetupState::Done,
                    SetupAction::Finish {
                        notice: Some(
                            "Dry run only. Re-run with --execute to perform checks and open the registry.".to_owned(),
                        ),
                    },
                )
            } else {
                continue_run(plan, options, 0)
            }
        },
        (SetupState::AwaitCommand { index }, SetupEvent::CommandExited { code }) => {
            if code != 0 {
                (SetupState::Done, SetupAction::Fail { message: command_failed(plan, index, code) })
            } else if index < plan.steps.len() {
                continue_run(plan, options, index + 1)
            } else {
                proof {
                    assert(next_command(crate::model::step_models(plan.steps@), index + 1) == -1);
                }
                continue_run(plan, options, index)
            }
        },
        (SetupState::AwaitBrowser, SetupEvent::BrowserReady) => {
            if plan.registry == Registry::Npm {
                if plan.trusted_publisher.is_some() {
                    (SetupState::AwaitPrefill { retried: false }, SetupAction::FillForm)
                } else {
                    (
                        SetupState::Done,
                        SetupAction::Fail { message: missing_publisher(&plan.repository) },
                    )
                }
            } else {
                (SetupState::AwaitReview, SetupAction::AwaitReview)
            }
        },
        (SetupState::AwaitPrefill { retried }, SetupEvent::FormFilled { nothing_filled }) => {
            if nothing_filled && !retried {
                (SetupState::AwaitPrefill { retried: true }, SetupAction::PauseAndRefill)
            } else if options.yes {
                (SetupState::AwaitSubmission, SetupAction::SubmitForm { show_fill_result: true })
            } else {
                (SetupState::AwaitConfirmation, SetupAction::AskConfirmation)
            }
        },
        (SetupState::AwaitConfirmation, SetupEvent::Confirmed { accepted }) => {
            if accepted {
                (SetupState::AwaitSubmission, SetupAction::SubmitForm { show_fill_result: false })
            } else {
                (SetupState::AwaitReview, SetupAction::AwaitReview)
            }
        },
        (SetupState::AwaitSubmission, SetupEvent::FormSubmitted { submitted }) => {
            if submitted {
                (SetupState::AwaitReview, SetupAction::AwaitReview)
            } else {
                (
                    SetupState::Done,
                    SetupAction::Fail {
                        message: "the form was not submitted; review the visible browser and submit manually".to_owned(),
                    },
                )
            }
        },
        (SetupState::AwaitReview, SetupEvent::Reviewed) => (
            SetupState::Done,
            SetupAction::Finish { notice: None },
        ),
        _ => (SetupState::Done, SetupAction::Fail { message: "unexpected setup event".to_owned() }),
    }
}

} // verus!
