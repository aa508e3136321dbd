# escriba

The core of escriba, a modal text editor configured in tatara-lisp, written
in Verus: every function in `src/` carries a contract that Verus proves.

## Layout

- `src/` — the verified library.
  - Editing vocabulary: `position`, `range`, `edit`, `mode`, `motion`,
    `action`, `selection`, `register`, `damage`, `jumplist`, `generation`,
    `id`, `filetype`.
  - Buffers: `rope` (the ropey text store, behind trusted wrappers),
    `buffer`, `buffer_set`, `undo`, `encoding`, `line_ending`.
  - Keys and bindings: `keys` (awase hotkeys), `keymap`, `keymap_defaults`,
    `input` (window events to keys).
  - Commands: `command` (the registry and alias resolution), `natives`
    (the built-in commands as functions from an editor snapshot to an
    outcome), `outcome`, `ex` (the `:` command grammar), `option_store`.
  - `lisp/` — the rc vocabulary (`def…` forms), their checks, the apply plan
    and how a plan is applied to the keymap, the command registry, the
    options and the filetype table; the plugin catalog; content hashes.
  - `config` — the `defescriba` configuration and its tiers.
  - `text`, `order`, `assoc` — text, ordering and association-list helpers
    with their specifications.
- `tests/` — tests run against the compiled library.
- `app/` — the unverified shell: reading rc files and catalog sources with
  tatara-lisp, file I/O for buffers, the tiered configuration model,
  madori window events, floating-point effect settings and the OpenAPI
  document.

## Checking

Verus verifies `src/`; the tests run against the compiled library with the
real outside crates linked.
