# flow2flow

Flow-to-flow composition: typed flow contracts (an entry node, call nodes,
a response node), a runtime that executes them against a resolver with
retries, fan-out joins, fallbacks and idempotent replay, a tenancy-aware
registry that publishes flows under tenant/team/user scopes and resolves
calls to the most specific scope and the newest matching version, and two
converter components between events and channel messages.

## Layout

- `src/` — the library, verified with Verus. Every public function states
  what it returns in its `ensures`; the properties that span several
  functions are public proof functions named `law_*`.
  - `contract`, `simple`, `loader`: flow contracts, their validation, and the
    upgrade of documents that list nodes in an array.
  - `ctx`, `pattern`, `templating`, `json`, `json_text`: the execution
    context, dotted state paths, permission patterns, templates and JSON.
  - `executors`, `resolver`, `error`: the entry, call and response nodes; a
    call is a state machine (`CallRun`) whose caller performs the lookups,
    resolutions, waits and stores that each step asks for.
  - `scope`, `versions`, `signature`, `registry`, `router`: scopes and their
    lookup order, semantic versions, flow signatures, the in-memory registry
    and the router adapter with its allow lists.
  - `event2msg`, `msg2event`, `schema`: the converter components and the
    schemas they publish.
  - `legacy`, `conformance`, `examples`, `cli`: the step-list runtime,
    conformance helpers, sample flows, and the command line's own decisions.
- `app/` — the program around the library: command-line parsing, file I/O,
  the loop that drives a call (sleeping between retries), serde and CBOR
  encodings, JSON Schema generation, and the component descriptors.
- `tests/` — tests of the library.
