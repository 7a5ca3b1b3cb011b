# turbopack (verified decision logic)

The decision logic of a module bundler, written in Verus and proved against its
contracts. Every outside service (rule conditions, source transforms, resolving,
file system, login service) is left to the caller: the library hands it plain
values and state machines, and `app/` shows drivers that run those machines.

Modules under `src/`:

- `rules` — the default processing of a source: a state machine that walks the
  module rules, applies the effects of matching rules, restarts on a transformed
  source and finishes with a module plan. Laws: well-formed states stay well
  formed, processed rules are never tested again, restarts are bounded, every
  walk answered as asked ends.
- `module_type` — module types and the plan by which a source becomes a module.
- `context` — the asset context: type resolving, transitions by name.
- `css_import` — `@import` attributes read from the prelude, and the
  `@layer`/`@supports`/`@media` blocks that wrap the imported stylesheet.
- `graph`, `emit` — aggregated output assets and which of them are written into
  an output directory.
- `references`, `top` — the back-reference index of output assets and the
  selection of the most referenced ones (a group's index merges its children's;
  selecting twice selects the same).
- `login` — the login flow as a state machine.
- `issue`, `text` — issue texts and string joining.

`tests/` exercises each module on concrete values.
