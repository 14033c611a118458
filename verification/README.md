# leptos_store

State management building blocks for Leptos applications, written in Verus
with their behaviour stated as contracts and proved.

## Layout

- `src/` — the verified library.
  - `store` — store identity and the `Store` trait.
  - `dependency_graph` — store dependencies: cycle detection and
    initialization (topological) order.
  - `coordination` — rules that route one store's events to handlers on
    another, cache invalidation.
  - `audit` — a bounded audit trail of mutations with snapshots and diffs.
  - `middleware` — the middleware chain (stable priority order), the event
    bus, a middleware-enabled store, and the logging, timing, validation and
    tracing middleware.
  - `persistence` — storage adapters, persistence configuration and a store
    wrapper that saves and restores versioned state.
  - `devtools` — the devtools registry, event conversion and the
    time-travel debugger.
  - `server` — server action errors, status and history.
  - `templates::feature_flags` — a feature flag store with overrides.
  - `composition` — lazily resolved store dependencies.
  - `keyed_map`, `priority`, `text`, `clock` — supporting pieces: an
    insertion-ordered text-keyed map, a stable priority sort, decimal and
    boolean text, and the few clock reads (through `web_time`, so that
    they also work in the browser).
- `tests/` — tests of the library.
- `app/` — the Leptos, browser and console glue: components, selectors,
  console output, tracing spans, JSON encoding of persisted state, browser
  storage and the devtools inspector.
