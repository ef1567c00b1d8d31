# spline1d

One-dimensional cubic spline interpolation.

- `src/` is the verified library. Real numbers are binary64 bit patterns
  (`u64`); the library decides everything that depends only on their order
  and on NaN/infinity: comparisons, `sign`, `abs`, `min_abs`, `max_abs`,
  interval membership, binary search for the interval holding a value, the
  `Spline` container (assembly of coefficients with NaN clean-up, interval
  lookup, largest node value) and the `MultiSpline` bookkeeping (variable
  registration, routes between variables, break values by key), and the
  splitting of CSV text into named columns (the parse itself is the `csv`
  crate's, behind one trusted wrapper).
- `app/` holds the floating-point arithmetic around it: node slopes of the
  Akima, Makima, PCHIP, Steffen, Catmull-Rom, Cardinal and Fritsch-Butland
  methods, single-interval coefficients, the normalized endpoint (alpha)
  form, evaluation of splines and their derivatives, intersections, and
  reading a CSV file and turning its fields into numbers.
- `tests/` exercise the library on concrete values, comparing the bit
  pattern model with native `f64` arithmetic.
