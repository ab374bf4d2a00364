# ipasir

Rust types for the IPASIR interface to incremental SAT solvers, verified
with Verus.

- `src/types.rs`: literals (`Lit`, never `0` nor `i32::MIN`), variables
  (`Var`, always positive), signs, clauses and the iterator over a clause.
- `src/interface.rs`: solver answers (`SolveResponse`, `LitValue`,
  `SolveControl`), errors and their messages, and the `IpasirSolver` trait.
- `src/protocol.rs`: the integers that cross the C interface and how they
  are read and written (solve, value and failed responses, zero-terminated
  clauses, the learnt-clause length limit).
- `src/text.rs`: decimal rendering of integers for error messages.
- `app/`: the solver backed by a linked C library, whose calls go through
  raw pointers and therefore stay outside the verified library.
