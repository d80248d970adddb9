# dep

Concrete-struct dependency injection, with its logic stated in contracts and
proved.

Dependency clients are plain structs whose methods call stored function
pointers. A client is resolved from a stack of scoped override layers (the
newest layer that overrides it wins) and falls back to its live value.

## Layout

- `src/` — the verified library:
  - `overrides.rs`: the override stack, the override builder, scope guards,
    and the laws of resolution (newest layer wins, a layer shadows only its
    own keys, leaving a scope removes exactly the layer it entered, in
    whatever order scopes are left);
  - `dependency.rs`: the `Dependency` trait and resolution of a client value;
  - `tokens.rs`, `client.rs`, `depends.rs`: the `client!` and
    `#[derive(Depends)]` expansions, computed from a token model of the macro
    input and specified character for character;
  - `error.rs`, `http.rs`, `random.rs`, `text.rs`: error and HTTP data types,
    random bytes, and text helpers.
- `app/` — ordinary Rust around it: the process-global override stack and its
  typed façade, the test lock, closure erasers, `deps!` / `test_deps!`, the
  built-in clients (clock, environment, random, file system, UUID, HTTP) and
  the proc-macro entry points.
- `tests/` — tests of the library on concrete values.
