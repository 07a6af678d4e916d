# server — control service logic

The decision logic of the proxy's control service, verified with Verus.

- `src/` — the verified library:
  - `calls.rs`: call listing (newest first, stable, capped), single-call
    lookup, trace artifacts (readable text or base64);
  - `discovery.rs`: model listing requests, identifiers in a listing page,
    paging, custom header checks;
  - `connectivity.rs`: the connectivity test request and the state machine
    that watches the model's answer stream;
  - `service.rs`: the service value, advertisement helpers;
  - `codec.rs`: standard base64, spelled out, with its round trip;
  - `order.rs`, `text.rs`, `json.rs`, `model.rs`: text order, whitespace,
    decimal text, the JSON model and the record types.
- `app/` — HTTP requests, the timed stream loop, JSON conversion and the
  serializable forms of the results.
- `tests/` — tests of the library on concrete values.
