# underscore_semant

The semantic checker of the Underscore language: it turns written types into
types, checks struct, alias and function declarations, statements and
expressions, and reports what is wrong with them, verified with Verus.

Layout of `src/`:

- `syntax.rs` — the abstract syntax the checker reads.
- `types.rs` — types and type constructors, with their mathematical views.
- `env.rs` — scoped environments for types and variables.
- `report.rs` — error kinds, diagnostics and the reporter that collects them.
- `infer.rs` — substitution and unification.
- `cast_check.rs` — which casts are allowed.
- `typing.rs` — the typing judgement as spec functions: outcome, resulting
  environment and reported diagnostics of every check.
- `trans.rs` — the executable checker, each function proved to compute exactly
  what `typing.rs` states.
- `fresh.rs` — every type variable and struct identity bound in an
  environment lies below its counters, and checking keeps it so: what a
  declaration takes is new to its environment.
- `laws.rs`, `progress.rs` — properties of the checker stated over the
  judgement and proved: scoping, unification, substitution, what declarations
  bind, and when the checker is never stuck.

`app/` renders diagnostics as messages; `tests/` runs the checker on concrete
programs.
