# cocore provider

The logic of a provider agent that serves inference through an OpenAI-compatible
endpoint, written in Verus.

- `src/system_profile.rs`: a machine's profile from what its probes gave.
- `src/determinism.rs`: the operator's settings for deterministic generation.
- `src/engines/openai.rs`: the requests of a generation and what the answers say.
- `src/engines/sse.rs`: the stream of server-sent events of an answer.
- `src/json.rs`: JSON values as plain data, and the way to and from `serde_json`.
- `src/text.rs`: trimming, splitting, searching and reading numbers.
- `app/`: the environment, files, commands and the HTTP client around the library.

What is trusted and not proved: the contracts of the functions marked
`#[verifier::external_body]` and of `String::push`, each of which names the function that
it calls and says what is claimed of it; the names for what such functions give, the
specification functions without a body, which say that the same arguments give the same
result; and the types of `serde_json` that are declared without their insides.
