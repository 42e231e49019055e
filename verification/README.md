# wafer_core

The interfaces through which a block reaches its host: authentication,
configuration, cryptography, the database, language and image models, the log
and the network. The logic of the interfaces is verified with Verus.

- `src/` is the verified library. Handlers and operations are written as steps:
  a message or an answer goes in, and what to ask next, or the response, comes
  out. Contracts say exactly which.
  - `text`, `json`, `double`, `row`, `ident`, `error`, `handler_util`: what the
    interfaces share.
  - `auth`, `config`, `crypto`, `image`, `llm`, `logger`, `network`: one module
    per interface, with `model_common` and `model_listing` for both kinds of
    models.
  - `database`: messages and their conversion, filters, the schema cache, the
    execution of operations as statements (`exec`), and a suite that every
    backend must pass (`conformance`).
- `app/` is the asynchronous side: it awaits services, runs statements and
  forwards streams, and hands what came back to the library.
- `tests/` runs the library on concrete values.

Calls into `chrono`, `serde_json`, `url`, `uuid` and a few functions of the
standard library stand behind functions marked `external_body`; the doc comment
of each says what is taken for granted of the call.
