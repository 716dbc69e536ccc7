# splunk_hec_full

A receiver for the Splunk HTTP Event Collector protocol, with everything it decides written and
proved in [Verus](https://github.com/verus-lang/verus): who may send, what a body holds, which
log events it becomes, and how each request is answered.

## Layout

- `src/` is the library.
  - `routes`, `auth`, `source`, `exchange`: the course of a request. `exchange` says step by step
    what a server has to do next (get an id, split a double, send events on, answer).
  - `events`, `event_time`, `extractor`, `raw`: how bodies become log events.
  - `log_event`, `value`, `json`, `timestamp`, `encoding`, `text`, `string_map`: what those are
    made of.
  - `response`, `config`, `token_binding`: answers, settings, and default metadata by token.
  - `event_laws`, `request_laws`, `raw_laws`: what holds of every event and every request.
- `app/` is the server around it: sockets, headers, settings files, and floating point.
- `tests/` runs the library with the real crates linked.

## What is taken on trust

Calls into `serde_json`, `flate2`, `base64`, `chrono` and `uuid`, and a few functions of the
standard library, stand behind small functions whose contracts are not proved. Each says in its
comment which function it calls and what it claims of it.
