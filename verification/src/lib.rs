//! Types and protocol logic for the IPASIR interface to incremental SAT
//! solvers.
//!
//! IPASIR is a simple C interface to incremental SAT solvers. This crate
//! gives its literals, variables and clauses Rust types, names the answers
//! a solver gives, and turns the raw integers that cross the C interface
//! into those types and back.

mod interface;
mod protocol;
mod text;
mod types;

pub use self::types::{
    Sign,
    Var,
    Lit,
    InvalidLitVal,
    Clause,
    LitIter,
};
pub use self::interface::{
    SolverErrorKind,
    SolverError,
    SolveResponse,
    Result,
    ResponseError,
    LitValue,
    IpasirSolver,
    SolveControl,
};
pub use self::protocol::{
    failed_from_raw,
    encode_clause,
    decode_learnt_clause,
    learn_limit,
};
