# sourceclass

A codebase intelligence engine whose logic is verified with Verus.

Given what a walk of a project found (paths, sizes, file texts), the library
computes:

- file records, languages, frameworks and the dominant language;
- entry points, file roles, declared dependencies (Cargo, npm, pip, Go);
- risk flags (secrets, keys, large, binary and generated files), sorted from
  the most severe down;
- a structure graph, edit zones, token estimates and a context plan that never
  holds a file with a critical or high risk and marks every security-sensitive
  file `NeverSend`;
- a project map: symbols per language, import and inheritance relationships,
  centrality scores, file summaries and a project skeleton.

## Layout

- `src/` — the verified library. Every public function states its result in
  `ensures` over spec functions; laws that relate several functions are public
  proof functions (`lemma_*`).
- `tests/` — tests on concrete values.
- `app/` — the command line: directory walks, file reads and JSON output.

Confidences are whole hundredths and centrality scores exact ratios inside
the library; the command line prints them as fractions.
