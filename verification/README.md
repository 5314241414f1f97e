# package_registry_manager

Inspects a source repository, identifies its publishable packages (npm,
crates.io, PyPI, Go modules, NuGet, Maven Central, Packagist) and guides a
maintainer through secure registry setup without ever publishing an artifact.

The library under `src/` is written in Verus. Its functions are verified
against their contracts, except a few small trusted wrappers whose contracts
are taken on trust: the calls into `serde_json`, `toml` and `regex`
(`json_doc`, `toml_doc`, `pattern`), the `std::io` calls of `output`, and
collecting characters into a `String` in `text`. The modules are:

- `discovery` reads manifests, Git configuration and workflow files that the
  caller hands over, and builds the repository inspection;
- `plan` turns an inspection into ordered setup plans, and proves that no
  plan uploads an artifact;
- `report` renders inspections and plans as text and picks the plan for
  `setup`;
- `setup` is the state machine of a setup run, with its safety laws (dry run
  by default, consent before submitting the npm form, only the plan's own
  checks are run);
- `browser` builds the npm form-filling script around JSON data;
- `version_sync` rewrites the version fields of the npm package files;
- `json_doc`, `toml_doc` and `pattern` are the trusted boundary to
  `serde_json`, `toml` and `regex`; `output` writes command output.

`app/` is the command-line program around the library: argument parsing,
reading the repository from disk, JSON output, running commands and driving
the browser. `tests/` exercises the library on concrete repositories.
