# gateway_core

The core rules of a model gateway, verified with Verus: identifiers and
their validation, provider accounts and their scheduling, quota and
credential state, usage accounting and pricing, gateway errors and their
client-facing shapes, response event streams, request policies, wait queues,
and the diagnostic captures and timelines of a request.

## Layout

- `src/` is the verified library. Every public function states in its
  contract what it returns or changes; the laws that relate several
  functions are public proof functions next to them (`lemma_*`).
- `src/credential/` holds the account model: ids, state, the selection of an
  account for a request, model access, proxies and store records.
- `src/engine/` holds the execution rules: request ids and attempt
  records, continuation bindings, routing and policy decisions, and the
  request coordinator's retry gates, commit barrier and write-back
  outcomes, the nested-execution limits, client key matching and the
  client model catalog merge.
- `src/operation.rs` holds the business operations and their opaque
  payloads; `src/operation/json.rs` reads the few fields of a JSON body
  that routing depends on, through `serde_json`, against the library's own
  `JsonTree` model.
- `src/diagnostics/` holds what a capture keeps of bodies and headers, the
  bounded event timeline of a request, and which candidates a selection
  trace describes.
- `app/` is ordinary Rust around the library: clock and JSON conversions,
  floating-point smart-scheduling scores, process-local feedback statistics,
  asynchronous ports, waiting on the wait queues, and the copies of library
  types that carry serde and thiserror derives.
- `tests/` runs the library on concrete values.

Calls into `semver`, `url`, `sha2`, `uuid` and `serde_json` stay in the
library behind small trusted wrappers whose contracts say what the crates
document; everything around them is verified.
