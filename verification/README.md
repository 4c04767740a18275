# llmr

Reach language models across providers, with capabilities you can read before you ask and
usage you can trust.

## Layout

- `src/` is the library, in Verus. What a model can do, what a call costs, what goes over the
  wire, what came back, whether to try again and which provider to ask next are decided here,
  and every function says in its contract what it decides.
- `app/` is ordinary Rust around the library: the HTTP client, the process runner, the clock,
  the environment, the async traits, serde copies of the data types and the comparison of
  vectors.
- `tests/` runs the library on concrete values.

## Reading it

A type that holds text or lists has a view: `Turn` for `Message`, `Asked` for `ChatRequest`,
`Reply` for `ChatResponse`, `Happening` for `Event`, `Tree` for `Json`, `Failure` for `Error`.
Contracts speak of the views. The public proof functions state what holds across calls, such
as that a streamed reply is the whole one, that chunk boundaries in a stream change nothing, or
that a router never calls a route that cannot serve; those of the router stand in
`src/router/laws.rs`.

What the library takes on trust is marked `external_body` and says in its doc comment which
outside function it calls: parsing and writing JSON and TOML, base64, a few functions on text,
and the clock that spreads retries.
