# measured_policy

Authenticated, measured runtime policies, and the device-admission policy of a
VPCI relay, verified with Verus.

- `src/` is the verified library. `src/lib.rs` lists its modules; `src/laws.rs`
  holds the properties of the library as a whole, first of all that a loaded
  device policy never admits a device outside the compiled-in ceiling, and that
  a JSON document loads to the policy that it is laid out from, so that a policy
  reads back from what was written of it.
- `tests/` runs the library.
- `app/` is a small program that authors, loads and evaluates a GPU policy.

Not proved, and marked where it is used: what `sha2` computes as SHA-384, and how
`serde_json` reads the tokens of a document.
