# malbox

The decision-making core of a malware analysis platform, verified with Verus.

`src/` is the library. Its functions carry `requires`/`ensures` contracts that
Verus proves, and the laws that hold across functions stand as
public proof functions (`law_*`). It covers:

- plugin scheduling (`plugin_state`, `plugins`, `runtime`), analysis modules
  (which of their plugins to load, the error of a failed load, and each loaded
  plugin's status, in `modules`; loading the plugins' shared libraries is not
  part of this crate), and the messages that travel between the core and its
  plugins (`message`, `bytes`). The scheduler proposes only plugins whose
  required plugins run and none of whose own incompatible plugins runs; an
  exclusive plugin runs alone, sequential plugins one at a time, and a parallel
  plugin only next to parallel plugins of its own group;
- Packer templates, builds and machine-readable output (`packer_template`,
  `packer_parse`, `packer_manager`, `packer_build`, `packer_events`,
  `image_builder`);
- Terraform workspaces and their text (`terraform`, `terraform_parse`), Ansible
  playbooks and inventories (`ansible`, `yaml`);
- the image download registry (`download`), machine queries (`machines`), command
  output (`command`), HCL utilities (`hcl_tree`, `hcl_utils`) and the HTTP API's
  answers (`http_api`).

Parsing HCL and YAML, generating UUIDs and formatting `Debug` text are done by
the `hcl-rs`, `serde_yaml` and `uuid` crates and by `std`, behind a few
`#[verifier::external_body]` functions whose contracts state what the library
relies on.

`app/` is the command-line program around the library: it runs processes,
touches files, the network and the database, and hands plain values to the
library. `tests/` exercises the library on concrete inputs.
