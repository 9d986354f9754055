# itmo_compmath

Numerical-methods programs (linear systems, least-squares approximation,
interpolation, nonlinear equations, ordinary differential equations,
descriptive statistics) split into a verified library and a thin front end.

- `src/` — the library, verified with Verus: input checks and menus, the
  ordering of samples by integer ordering keys of their IEEE-754 bit
  patterns, the variation and statistical series, the empirical
  distribution function, the diagonal-dominance check, the choice of the
  best approximating family and the text of a fitted function.
- `app/` — the programs: console and file input, the floating-point
  methods themselves, and plotting with `plotters`. Run it with the name of
  a program: `seidel`, `lab1`, `approximation`, `interpolation`,
  `non-linear`, `differential` or `probability`.
- `tests/` — tests of the library on concrete values.
