//! What the command line prints: the text form of inspections and plans, and
//! the choice of one plan for `setup`.

use vstd::prelude::*;
use vstd::string::StringExecFns;

use crate::model::{
    package_models, plan_models, spec_canonical_name, step_models, texts, CommandModel, Inspection,
    InspectionModel, PackageModel, PlanModel, SetupPlan, StepModel,
};
use crate::text::{decimal, decimal_text, join_strings, join_with, text_eq};

verus! {

// ---------------------------------------------------------------------------
// Inspection text
// ---------------------------------------------------------------------------

pub open spec fn publish_status(p: PackageModel) -> Seq<char> {
    if p.publishable {
        "publishable"@
    } else {
        "not publishable"@
    }
}

/// One line per package: `- <registry>: <name> (<manifest>, <status>)`.
pub open spec fn package_line(p: PackageModel) -> Seq<char> {
    "- "@ + spec_canonical_name(p.registry) + ": "@ + p.name + " ("@ + p.manifest + ", "@
        + publish_status(p) + ")\n"@
}

pub open spec fn package_lines(packages: Seq<PackageModel>) -> Seq<char>
    decreases packages.len(),
{
    if packages.len() == 0 {
        seq![]
    } else {
        package_lines(packages.drop_last()) + package_line(packages.last())
    }
}

/// The text form of an inspection.
pub open spec fn inspection_text(i: InspectionModel) -> Seq<char> {
    "Repository: "@ + i.repository.root + "\n"@ + (if i.packages.len() == 0 {
        "No supported package manifests found.\n"@
    } else {
        seq![]
    }) + package_lines(i.packages)
}

fn append_package_line(out: &mut String, package: &crate::model::Package)
    ensures
        final(out)@ == old(out)@ + package_line(package@),
{
    let mut line = "- ".to_owned();
    line.append(package.registry.as_str());
    line.append(": ");
    line.append(package.name.as_str());
    line.append(" (");
    line.append(package.manifest.as_str());
    line.append(", ");
    let status = if package.publishable {
        "publishable"
    } else {
        "not publishable"
    };
    line.append(status);
    line.append(")\n");
    out.append(line.as_str());
}

/// Renders an inspection for a terminal.
pub fn render_inspection(inspection: &Inspection) -> (r: String)
    ensures
        r@ == inspection_text(inspection@),
{
    let ghost packages = inspection@.packages;
    let mut out = "Repository: ".to_owned();
    out.append(inspection.repository.root.as_str());
    out.append("\n");
    if inspection.packages.len() == 0 {
        out.append("No supported package manifests found.\n");
    }
    let ghost head = out@;
    assert(head + package_lines(packages.take(0)) =~= head);
    for i in 0..inspection.packages.len()
        invariant
            packages == inspection@.packages,
            packages.len() == inspection.packages@.len(),
            out@ == head + package_lines(packages.take(i as int)),
    {
        let package = &inspection.packages[i];
        assert(packages.take(i + 1).drop_last() =~= packages.take(i as int));
        assert(packages[i as int] == package@);
        let ghost prev = out@;
        append_package_line(&mut out, package);
        assert(package_lines(packages.take(i + 1)) == package_lines(packages.take(i as int))
            + package_line(package@));
        assert(out@ =~= head + package_lines(packages.take(i + 1)));
    }
    assert(packages.take(packages.len() as int) =~= packages);
    out
}

// ---------------------------------------------------------------------------
// Plan text
// ---------------------------------------------------------------------------

pub open spec fn command_line(c: CommandModel) -> Seq<char> {
    "     $ "@ + c.program + " "@ + join_with(c.args, " "@) + "\n"@
}

/// A numbered step, with its command and URL on lines of their own.
pub open spec fn step_text(step: StepModel, number: nat) -> Seq<char> {
    "  "@ + decimal(number) + ". "@ + step.title + "\n"@ + match step.command {
        Some(c) => command_line(c),
        None => seq![],
    } + match step.url {
        Some(url) => "     "@ + url + "\n"@,
        None => seq![],
    }
}

pub open spec fn steps_text(steps: Seq<StepModel>) -> Seq<char>
    decreases steps.len(),
{
    if steps.len() == 0 {
        seq![]
    } else {
        steps_text(steps.drop_last()) + step_text(steps.last(), steps.len())
    }
}

pub open spec fn plan_text(p: PlanModel) -> Seq<char> {
    spec_canonical_name(p.registry) + ": "@ + p.package.name + "\n"@ + steps_text(p.steps)
}

/// The text form of a list of plans.
pub open spec fn plans_text(plans: Seq<PlanModel>) -> Seq<char>
    decreases plans.len(),
{
    if plans.len() == 0 {
        seq![]
    } else {
        plans_text(plans.drop_last()) + plan_text(plans.last())
    }
}

fn command_text(command: &crate::model::CommandSpec) -> (r: String)
    ensures
        r@ == command_line(command@),
{
    let args = join_strings(&command.args, " ");
    let mut line = "     $ ".to_owned();
    line.append(command.program.as_str());
    line.append(" ");
    line.append(args.as_str());
    line.append("\n");
    line
}

fn url_text(url: &Option<String>) -> (r: String)
    ensures
        r@ == match crate::model::opt_text(*url) {
            Some(u) => "     "@ + u + "\n"@,
            None => Seq::<char>::empty(),
        },
{
    match url {
        Some(u) => {
            let mut line = "     ".to_owned();
            line.append(u.as_str());
            line.append("\n");
            line
        },
        None => String::new(),
    }
}

fn append_step(out: &mut String, step: &crate::model::SetupStep, number: usize)
    ensures
        final(out)@ == old(out)@ + step_text(step@, number as nat),
{
    let digits = decimal_text(number);
    let mut text = "  ".to_owned();
    text.append(digits.as_str());
    text.append(". ");
    text.append(step.title.as_str());
    text.append("\n");
    let command = match &step.command {
        Some(c) => command_text(c),
        None => String::new(),
    };
    text.append(command.as_str());
    let url = url_text(&step.url);
    text.append(url.as_str());
    out.append(text.as_str());
}

fn append_plan(out: &mut String, plan: &SetupPlan)
    ensures
        final(out)@ == old(out)@ + plan_text(plan@),
{
    let ghost start = out@;
    let ghost steps = plan@.steps;
    out.append(plan.registry.as_str());
    out.append(": ");
    out.append(plan.package.name.as_str());
    out.append("\n");
    let ghost head = out@;
    assert(head + steps_text(steps.take(0)) =~= head);
    for i in 0..plan.steps.len()
        invariant
            steps == plan@.steps,
            steps.len() == plan.steps@.len(),
            out@ == head + steps_text(steps.take(i as int)),
    {
        let step = &plan.steps[i];
        assert(steps.take(i + 1).drop_last() =~= steps.take(i as int));
        assert(steps[i as int] == step@);
        append_step(out, step, i + 1);
        assert(steps_text(steps.take(i + 1)) == steps_text(steps.take(i as int)) + step_text(
            step@,
            (i + 1) as nat,
        ));
        assert(out@ =~= head + steps_text(steps.take(i + 1)));
    }
    assert(steps.take(steps.len() as int) =~= steps);
}

/// Renders plans for a terminal.
pub fn render_plans(plans: &Vec<SetupPlan>) -> (r: String)
    ensures
        r@ == plans_text(plan_models(plans@)),
{
    let ghost models = plan_models(plans@);
    let mut out = String::new();
    for i in 0..plans.len()
        invariant
            models == plan_models(plans@),
            out@ == plans_text(models.take(i as int)),
    {
        assert(models.take(i + 1).drop_last() =~= models.take(i as int));
        append_plan(&mut out, &plans[i]);
    }
    assert(models.take(plans@.len() as int) =~= models);
    out
}

// ---------------------------------------------------------------------------
// Choosing a plan
// ---------------------------------------------------------------------------

/// Why no single plan could be chosen for `setup`.
#[derive(Debug, Clone, PartialEq, Eq)]
pub enum SelectPlanError {
    /// No plan has a package of the requested name.
    PackageNotFound { package: String },
    /// No plan matched the requested registry.
    NoPlans,
    /// Several plans matched and no package was named.
    Ambiguous,
}

pub enum SelectPlanErrorModel {
    PackageNotFound(Seq<char>),
    NoPlans,
    Ambiguous,
}

impl View for SelectPlanError {
    type V = SelectPlanErrorModel;

    open spec fn view(&self) -> SelectPlanErrorModel {
        match self {
            SelectPlanError::PackageNotFound { package } => SelectPlanErrorModel::PackageNotFound(
                package@,
            ),
            SelectPlanError::NoPlans => SelectPlanErrorModel::NoPlans,
            SelectPlanError::Ambiguous => SelectPlanErrorModel::Ambiguous,
        }
    }
}

pub open spec fn select_message(e: SelectPlanErrorModel) -> Seq<char> {
    match e {
        SelectPlanErrorModel::PackageNotFound(p) => "package '"@ + p
            + "' was not found for this registry"@,
        SelectPlanErrorModel::NoPlans => "no matching package manifests were found"@,
        SelectPlanErrorModel::Ambiguous => "multiple packages use this registry; select one with --package <name>"@,
    }
}

impl SelectPlanError {
    /// The message shown to the user.
    pub fn message(&self) -> (m: String)
        ensures
            m@ == select_message(self@),
    {
        match self {
            SelectPlanError::PackageNotFound { package } => {
                let mut m = "package '".to_owned();
                m.append(package.as_str());
                m.append("' was not found for this registry");
                m
            },
            SelectPlanError::NoPlans => "no matching package manifests were found".to_owned(),
            SelectPlanError::Ambiguous => "multiple packages use this registry; select one with --package <name>".to_owned(),
        }
    }
}

/// The index of the first plan whose package is named `name`, or `-1`.
pub open spec fn first_named(plans: Seq<PlanModel>, name: Seq<char>) -> int
    decreases plans.len(),
{
    if plans.len() == 0 {
        -1
    } else if first_named(plans.drop_last(), name) >= 0 {
        first_named(plans.drop_last(), name)
    } else if plans.last().package.name == name {
        plans.len() - 1
    } else {
        -1
    }
}

/// Which plan `setup` works on: the first plan for the named package, or
/// the only plan when no package is named.
pub open spec fn spec_select_plan(plans: Seq<PlanModel>, package: Option<Seq<char>>) -> Result<
    int,
    SelectPlanErrorModel,
> {
    match package {
        Some(name) => if first_named(plans, name) >= 0 {
            Ok(first_named(plans, name))
        } else {
            Err(SelectPlanErrorModel::PackageNotFound(name))
        },
        None => if plans.len() == 0 {
            Err(SelectPlanErrorModel::NoPlans)
        } else if plans.len() == 1 {
            Ok(0)
        } else {
            Err(SelectPlanErrorModel::Ambiguous)
        },
    }
}

/// Chooses the plan that `setup` works on.
pub fn select_plan<'a>(plans: &'a [SetupPlan], package: Option<&str>) -> (r: Result<
    &'a SetupPlan,
    SelectPlanError,
>)
    ensures
        match spec_select_plan(
            plan_models(plans@),
            match package {
                Some(p) => Some(p@),
                None => None,
            },
        ) {
            Ok(i) => r matches Ok(plan) && 0 <= i < plans@.len() && *plan == plans@[i],
            Err(e) => r matches Err(error) && error@ == e,
        },
{
    let ghost models = plan_models(plans@);
    match package {
        Some(name) => {
            for i in 0..plans.len()
                invariant
                    package == Some(name),
                    models == plan_models(plans@),
                    first_named(models.take(i as int), name@) == -1,
            {
                assert(models.take(i + 1).drop_last() =~= models.take(i as int));
                if text_eq(plans[i].package.name.as_str(), name) {
                    proof {
                        assert(models.take(i + 1).last() == plans@[i as int]@);
                        assert(first_named(models.take(i + 1), name@) == i);
                        lemma_first_named_prefix(models, name@, i + 1);
                        assert(spec_select_plan(models, Some(name@)) == Ok::<
                            int,
                            SelectPlanErrorModel,
                        >(i as int));
                    }
                    let chosen = &plans[i];
                    assert(*chosen == plans@[i as int]);
                    return Ok(chosen);
                }
            }
            assert(models.take(plans@.len() as int) =~= models);
            Err(SelectPlanError::PackageNotFound { package: name.to_owned() })
        },
        None => {
            if plans.len() == 0 {
                Err(SelectPlanError::NoPlans)
            } else if plans.len() == 1 {
                Ok(&plans[0])
            } else {
                Err(SelectPlanError::Ambiguous)
            }
        },
    }
}

proof fn lemma_first_named_prefix(plans: Seq<PlanModel>, name: Seq<char>, n: int)
    requires
        0 <= n <= plans.len(),
        first_named(plans.take(n), name) >= 0,
    ensures
        first_named(plans, name) == first_named(plans.take(n), name),
    decreases plans.len() - n,
{
    if n < plans.len() {
        assert(plans.take(n + 1).drop_last() =~= plans.take(n));
        lemma_first_named_prefix(plans, name, n + 1);
    } else {
        assert(plans.take(n) =~= plans);
    }
}

} // verus!
