# pecs_macro

Declarative caching for asynchronous service functions: the attributes `cacheable` for reads and
`cache_evict` for writes.

- `src/` is the library, verified with Verus: reading the attributes' arguments, writing the code
  that goes around a function's body, and putting it there. `src/laws.rs` states what holds of the
  two attributes as a whole, among it what the generated code does when it runs, as
  `src/meaning.rs` tells it.
- `tests/` holds the library's tests.
- `app/` is the crate that the compiler loads. It hands the compiler's tokens to the library and
  the library's tokens back. It is built as a crate of type `proc-macro`.
