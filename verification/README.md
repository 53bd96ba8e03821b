# api_error

API-friendly error types: an HTTP status code and a user-facing message for
each error, a derive that writes them from `#[api_error(...)]` attributes, and
a JSON answer (`{"message": ..., "extended": ...}`) for axum.

The verified library (`src/`):

- `format` — rewriting `"{1} and {0}"` into `"{} and {}"` plus the indices.
- `tokens`, `attr` — the tokens of an attribute, the attribute grammar, and
  how the attributes of one item combine.
- `expand` — for a struct or each enum variant, how `status_code` and
  `message` are computed (the plan the derive writes out).
- `api` — the `ApiError` trait and the default message of a status code.
- `response` — the JSON body of an error response and the responder slot.
- `laws` — properties of the whole, proved over the specifications.
- `text` — decimal rendering and small string helpers.

`app/` reads `syn` input into the library's model, writes the plan out as
tokens with `quote`, and builds axum responses.
