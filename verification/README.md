# dingo_test_runner

A runner for MySQL `.test` files: it reads a test file, runs its SQL and
commands against a server, and compares what they print with the expected
`.result` file (or records that file).

- `src/` is the library, verified with Verus: the test-file parser, the
  variable and expression handling, the engine that decides each step of a
  test, error matching, result comparison, connection bookkeeping, schema
  naming and the report layouts. Each public function states what it does
  in its `requires`/`ensures`; the `law_*` proof functions state properties
  that span several functions.
- `app/` is the program around it: the command line, the MySQL client, the
  shell, the clock, the file system, threads and mail.
- `tests/` runs the library on concrete inputs.

Conditions and `let` values are evaluated with `evalexpr`. A few of its
built-in functions can panic: `str::substring` on text that is not ASCII
(it slices by bytes), `shl` and `shr` (a shift out of range) and
`math::abs` (of the least 64-bit integer). Text that names one of these
(`substring` only when the text is not all ASCII) is not handed to
`evalexpr` at all: a condition is then read as a plain value, and a `let`
stores the text as it is. This keeps every library function free of panics;
it also means such text is never evaluated, even where the call would have
been safe.
