# ooda

A verified library for typed, calibrated decision models: bounded questions in,
confidence-scored answers out. Its behaviour is stated in `requires` and
`ensures` contracts and proved by Verus.

- `src/` is the library. It puts requests into their wire form, reads
  responses, decides when to try again, folds answers into traces and ledgers,
  and performs no I/O.
- `tests/` exercises it on concrete values.
- `app/` is ordinary Rust around it: blocking HTTPS, the capture log on disk,
  the environment, the tokens of `#[derive(Choice)]` and the traits of other
  crates.

Where to start reading:

| module | what it holds |
| --- | --- |
| `question`, `client`, `trace` | questions, answers, requests, outcomes and the decision history |
| `response`, `http`, `scripted` | how a response is read, what is sent, when to retry, replaying canned bodies |
| `choice`, `stage`, `speculate`, `derive` | decisions over a Rust enum, dependent chains, speculative branches |
| `numeric`, `schema`, `gpc1`, `schema_fallback` | numbers within bounds and records out of a finite set |
| `complete`, `embed`, `base64` | open text and embeddings |
| `best`, `cost`, `capture` | a running best, totals, the capture log |
| `shape` | the records of responses and logs, and what is wrong with a value that is none |
| `json`, `fields`, `names`, `number`, `text`, `duration`, `error` | the values all of this is made of |

Doubles are held by their bits, so every comparison that a decision rests on is
a comparison of integers. JSON is read and written by `serde_json`; what is done
with the value in between is verified.
