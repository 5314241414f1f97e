//! The program that fills npm's trusted-publisher form in the browser.

use vstd::prelude::*;
use vstd::string::StringExecFns;

verus! {

/// The program up to the form values.
pub const PREFILL_SCRIPT_HEAD: &'static str = r#"(() => {
  const config = "#;

/// The program between the form values and the submit flag.
pub const PREFILL_SCRIPT_FLAG: &'static str = r#";
  const shouldSubmit = "#;

/// The rest of the program: it fills the fields whose labels name the
/// organization, repository, workflow and environment, selects GitHub as the
/// provider when nothing could be filled, and presses the submit button only
/// when asked to and when at least three fields were filled. It reports the
/// filled fields, whether a provider was selected and whether it submitted.
pub const PREFILL_SCRIPT_TAIL: &'static str = r#";
  const normalized = value => (value || '').replace(/\s+/g, ' ').trim().toLowerCase();
  const controls = Array.from(document.querySelectorAll('input, select, textarea'));
  const setValue = (control, value) => {
    const prototype = control instanceof HTMLSelectElement
      ? HTMLSelectElement.prototype
      : control instanceof HTMLTextAreaElement
        ? HTMLTextAreaElement.prototype
        : HTMLInputElement.prototype;
    const setter = Object.getOwnPropertyDescriptor(prototype, 'value')?.set;
    if (setter) setter.call(control, value); else control.value = value;
    control.dispatchEvent(new Event('input', { bubbles: true }));
    control.dispatchEvent(new Event('change', { bubbles: true }));
  };
  const textFor = control => {
    const explicit = control.id
      ? document.querySelector(`label[for="${CSS.escape(control.id)}"]`)?.textContent
      : '';
    return normalized([explicit, control.getAttribute('aria-label'), control.name,
      control.placeholder, control.closest('label')?.textContent].filter(Boolean).join(' '));
  };
  const values = [
    [['organization', 'owner'], config.organization],
    [['repository', 'repo'], config.repository],
    [['workflow'], config.workflow],
    [['environment'], config.environment || ''],
  ];
  const filled = [];
  for (const [labels, value] of values) {
    if (!value) continue;
    const control = controls.find(candidate => labels.some(label => textFor(candidate).includes(label)));
    if (control) { setValue(control, value); filled.push(labels[0]); }
  }
  const provider = Array.from(document.querySelectorAll('button, label, [role="radio"]'))
    .find(element => normalized(element.textContent).includes('github'));
  if (provider && filled.length === 0) provider.click();
  let submitted = false;
  if (shouldSubmit && filled.length >= 3) {
    const button = Array.from(document.querySelectorAll('button, input[type="submit"]'))
      .find(candidate => /add|save|configure|submit/.test(normalized(candidate.textContent || candidate.value))
        && !candidate.disabled);
    if (button) { button.click(); submitted = true; }
  }
  return { filled, providerSelected: Boolean(provider), submitted };
})()"#;

/// The JSON form of a boolean.
pub open spec fn json_bool(b: bool) -> Seq<char> {
    if b {
        "true"@
    } else {
        "false"@
    }
}

/// The self-contained program for a form configuration given as JSON.
pub open spec fn spec_prefill_script(config_json: Seq<char>, submit: bool) -> Seq<char> {
    PREFILL_SCRIPT_HEAD@ + config_json + PREFILL_SCRIPT_FLAG@ + json_bool(submit)
        + PREFILL_SCRIPT_TAIL@
}

/// Builds the program that fills npm's trusted-publisher form with the
/// values of `config_json` (the form configuration serialized as JSON), and
/// submits it when `submit`. The values enter the program only as JSON data,
/// so repository metadata cannot escape into executable code.
pub fn prefill_script(config_json: &str, submit: bool) -> (r: String)
    ensures
        r@ == spec_prefill_script(config_json@, submit),
{
    let mut script = PREFILL_SCRIPT_HEAD.to_owned();
    script.append(config_json);
    script.append(PREFILL_SCRIPT_FLAG);
    let flag = if submit {
        "true"
    } else {
        "false"
    };
    script.append(flag);
    script.append(PREFILL_SCRIPT_TAIL);
    script
}

} // verus!
