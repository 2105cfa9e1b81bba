# flint

A linter and language-server core for Fleet GitOps YAML, written in Verus.

- `src/` is the verified library. Each public function states its result in
  its `ensures`, over spec functions on sequences of characters and views of
  the data types:
  - `version`, `deprecations`, `version_gate`: release versions, the rename
    table with its phases (dormant, warning, error, removed) and the
    resolution of the target version;
  - `paths`, `text`: path components, joining and lexical normalization on
    the meaning `std::path` gives them on Unix, and the string helpers;
  - `self_reference`, `lint_error`: the rule that flags `path:` values that
    point back at their own file;
  - `workspace`, `json_hover`, `field_docs`, `diagnostics`, `lsp`: path
    references, go-to-definition, document links, hover documentation for
    Apple profiles and the editor diagnostics of findings;
  - `fleet`: the reading of `fleetctl` output and the resource cache;
  - `help_agents`: the command reference for agents (index, command detail,
    full reference, procedures, JSON schema) over a plain model of the
    command-line interface.
- `app/` holds what touches the file system, processes and the protocol,
  YAML, JSON and command-line crates: it asks the disk about the paths the
  library names, walks directories, runs `fleetctl`, reads label documents
  and prints; the rules and texts come from the library.
- `tests/` runs the library on concrete inputs.
