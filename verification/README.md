# sglang-openai

The OpenAI chat side of a generation server, as a verified library and a thin HTTP crate
around it.

`src/` holds the decisions, each with a contract that Verus proves:

- `sampling`, `names`: reading sampling parameters and merging preferred ones beneath them
- `request`, `lowerer`, `config`, `error`: the states of a request on its way to the engine
- `chat`: the plan of an answer, refusals, response ids
- `response`, `wire`: what the engine sends, and what a client gets
- `logprobs`, `tools`, `usage`: the parts of a choice
- `unary`, `stream`, `run`: the whole answer, the streamed one step by step, and what holds
  of a stream from its first frame to its last
- `frames`, `json`, `status`, `text`: the text of a stream, JSON values, status codes,
  strings

The calls into `serde_json`, `serde`, `axum` and `uuid` are the exception: their contracts are
taken as given, and the comment above each says what is claimed of the call.

`app/` runs the channels, the streams and the routes, and converts between the library's
types and those of the protocol crates.

Numbers that the library only carries (log probabilities, sampling settings) are type
parameters.
