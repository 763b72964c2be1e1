# swc_plugin_ng_annotate

An swc plugin that adds, removes or rebuilds AngularJS dependency-injection
annotations (`["$scope", "$http", function ($scope, $http) {..}]`,
`Name.$inject = [..]`, `static $inject = [..]`).

## Layout

- `src/` — the verified library. It works on a model of the JavaScript
  syntax tree (`ast.rs`) in which every node the annotator refers to carries
  its source position and the texts of the comments that lead it.
  - `config.rs` — options, mode and rename map.
  - `regexp.rs` — module-name patterns, compiled and matched by `regex`.
  - `utils.rs`, `matchers.rs` — recognising Angular registration calls.
  - `nginject.rs` — `"ngInject"` prologues, `ngInject(..)` calls and
    `@ngInject` comments.
  - `scan.rs` — the first pass: chains, suspects, declarations, requests.
  - `transforms.rs`, `visitor.rs` — the second pass: which expressions,
    properties and classes to edit, and how statement lists are rebuilt
    with `$inject` statements.
  - `laws.rs` — properties that span functions (removing undoes adding,
    adding is idempotent, `@ngNoInject` blocks, ...).
- `app/` — the plugin around it: reading options with serde, walking the
  swc tree, converting nodes to the model and making the returned edits.
- `tests/` — tests of the library on model values.
