# aule

A control-systems toolkit whose decision-making core is verified with Verus.

- `src/` is the verified library. Time is counted in whole nanoseconds
  (`u128`) and sample values are generic, so every rule that decides what a
  block does is proved there: the delay line (buffering, the choice of the
  bracketing pair, the initial phase), the saturation block, the phase
  logic of the test-signal sources, the history kept by a discrete transfer
  function, and the searches and table lookups of step-response
  identification.
- `app/` holds what works on floating-point values or talks to outside
  crates: the arithmetic that blends samples, PID control, error metrics,
  state-space models over `nalgebra`, the observer over `ndarray`, CSV
  sample files, and the identification formulas.
- `tests/` exercises the library from outside.
