# onioncry

Architecture rule checks for JavaScript and TypeScript projects: layer
direction, bounded-context boundaries, public surfaces, core-layer package
policies, context cycles, clean-architecture artifact placement, vertical
slices, frontend feature systems, repository conventions, code smells and
inline suppressions.

The library in `src/` is written in Verus. Every check takes the project as
plain values (project-relative paths as component lists, import edges,
source texts, rule settings) and its contract states the exact findings it
returns, in order, or the configuration or source failure that stops it.

- `model`, `settings`, `config`, `catalog`: findings, rule settings with
  overrides, the configuration the rules read, and the rule catalog.
- `boundaries`: layers, contexts, core imports, public surfaces and context
  cycles (`cycle` proves that every reported cycle is a real, simple cycle of
  context imports, that every group of mutually importing contexts is
  reported, and that a context importing only itself is reported as
  `[x, x]`).
- `clean_architecture`, `vertical_slice`, `feature_system`, `repo`,
  `code_smells`: the remaining rule families.
- `suppressions`: `// onioncry-disable-next-line` directives (comments come
  from the oxc parser).
- `collectors`: runs the checks of the configured architecture mode and the
  mode-neutral checks in order; only rules of the mode's family can report.
- `tsconfig`: prefix aliases generated from a tsconfig `paths` map and the
  reviewed `"aliases"` block.

`app/` holds the file system, process and JSONC work: reading tsconfig files
and source texts, listing the project's directories and files, running
`git log`.
