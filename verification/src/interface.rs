use vstd::prelude::*;

use crate::text::{push_signed_decimal, signed_decimal};
use crate::types::{Clause, InvalidLitVal, Lit};

verus! {

/// The message of an invalid literal value `v`: "invalid literal value `v`".
pub open spec fn invalid_lit_message(v: i32) -> Seq<char> {
    "invalid literal value "@ + signed_decimal(v as int)
}

impl InvalidLitVal {
    /// Returns the message that describes this error.
    pub fn to_string(&self) -> (r: String)
        ensures
            r@ == invalid_lit_message(self.0),
            r@ == "invalid literal value "@ + signed_decimal(self.0 as int),
    {
        let mut s = String::from_str("invalid literal value ");
        push_signed_decimal(&mut s, self.0);
        s
    }
}

/// An error encountered when using an FFI IPASIR solver
/// that returned an invalid response value.
///
/// # Note
///
/// This can only be encountered when working with an FFI IPASIR solver.
#[derive(Debug, Clone, PartialEq, Eq)]
pub enum ResponseError {
    /// The `solve` call returned an invalid response.
    Solve(i32),
    /// The `val` call returned an invalid response.
    Val(i32),
    /// The `failed` call returned an invalid response.
    Failed(i32),
}

/// The message of a response error: "invalid response `v` from `call`",
/// where `call` names the solver call that gave the response `v`.
pub open spec fn response_error_message(e: ResponseError) -> Seq<char> {
    match e {
        ResponseError::Solve(v) => "invalid response "@ + signed_decimal(v as int) + " from solve"@,
        ResponseError::Val(v) => "invalid response "@ + signed_decimal(v as int) + " from val"@,
        ResponseError::Failed(v) => "invalid response "@ + signed_decimal(v as int) + " from failed"@,
    }
}

impl ResponseError {
    /// Returns the message that describes this error.
    pub fn to_string(&self) -> (r: String)
        ensures
            r@ == response_error_message(*self),
            *self matches ResponseError::Solve(v) ==> r@ == "invalid response "@ + signed_decimal(
                v as int,
            ) + " from solve"@,
            *self matches ResponseError::Val(v) ==> r@ == "invalid response "@ + signed_decimal(
                v as int,
            ) + " from val"@,
            *self matches ResponseError::Failed(v) ==> r@ == "invalid response "@ + signed_decimal(
                v as int,
            ) + " from failed"@,
    {
        let mut s = String::from_str("invalid response ");
        match self {
            ResponseError::Solve(v) => {
                push_signed_decimal(&mut s, *v);
                s.append(" from solve");
            },
            ResponseError::Val(v) => {
                push_signed_decimal(&mut s, *v);
                s.append(" from val");
            },
            ResponseError::Failed(v) => {
                push_signed_decimal(&mut s, *v);
                s.append(" from failed");
            },
        }
        s
    }
}

/// A kind of a SAT solver error.
#[derive(Debug, Clone, PartialEq, Eq)]
pub enum SolverErrorKind {
    /// A literal value was invalid.
    Lit(InvalidLitVal),
    /// Encountered when calling an invalid FFI IPASIR solver.
    Response(ResponseError),
    /// Returned when a solver was called in an invalid solver state.
    ///
    /// # Note
    ///
    /// This cannot be communicated by C ffi SAT solvers.
    InvalidSolverState,
}

/// The message of an error of kind `k`.
pub open spec fn solver_error_kind_message(k: SolverErrorKind) -> Seq<char> {
    match k {
        SolverErrorKind::Lit(e) => invalid_lit_message(e.0),
        SolverErrorKind::Response(e) => response_error_message(e),
        SolverErrorKind::InvalidSolverState => "invalid solver state"@,
    }
}

impl SolverErrorKind {
    /// Returns the message that describes this kind of error.
    pub fn to_string(&self) -> (r: String)
        ensures
            r@ == solver_error_kind_message(*self),
            *self matches SolverErrorKind::Lit(e) ==> r@ == "invalid literal value "@ + signed_decimal(
                e.0 as int,
            ),
            *self matches SolverErrorKind::Response(e) ==> r@ == response_error_message(e),
            *self == SolverErrorKind::InvalidSolverState ==> r@ == "invalid solver state"@,
    {
        match self {
            SolverErrorKind::Lit(e) => e.to_string(),
            SolverErrorKind::Response(e) => e.to_string(),
            SolverErrorKind::InvalidSolverState => String::from_str("invalid solver state"),
        }
    }
}

/// An error encountered at some solver calls.
#[derive(Debug, Clone, PartialEq, Eq)]
pub struct SolverError {
    /// The kind of the solver error.
    kind: SolverErrorKind,
}

impl View for SolverError {
    type V = SolverErrorKind;

    /// The kind of the error.
    closed spec fn view(&self) -> SolverErrorKind {
        self.kind
    }
}

impl SolverError {
    /// The error of kind `kind`.
    pub closed spec fn of_kind(kind: SolverErrorKind) -> SolverError {
        SolverError { kind }
    }

    /// The error of kind `kind` is of kind `kind`.
    pub proof fn lemma_of_kind(kind: SolverErrorKind)
        ensures
            SolverError::of_kind(kind)@ == kind,
    {
    }

    /// Two errors of the same kind are the same error.
    pub proof fn lemma_view_injective(a: SolverError, b: SolverError)
        ensures
            a@ == b@ <==> a == b,
    {
    }

    /// Returns the kind of the error.
    pub fn kind(&self) -> (r: &SolverErrorKind)
        ensures
            *r == self@,
    {
        &self.kind
    }

    /// Returns the message that describes this error, which is that of its
    /// kind.
    pub fn to_string(&self) -> (r: String)
        ensures
            r@ == solver_error_kind_message(self@),
    {
        self.kind.to_string()
    }
}

impl From<InvalidLitVal> for SolverError {
    fn from(err: InvalidLitVal) -> (r: SolverError)
        ensures
            r@ == SolverErrorKind::Lit(err),
    {
        SolverError { kind: SolverErrorKind::Lit(err) }
    }
}

impl vstd::std_specs::convert::FromSpecImpl<InvalidLitVal> for SolverError {
    open spec fn obeys_from_spec() -> bool {
        true
    }

    open spec fn from_spec(err: InvalidLitVal) -> SolverError {
        SolverError::of_kind(SolverErrorKind::Lit(err))
    }
}

impl From<ResponseError> for SolverError {
    fn from(err: ResponseError) -> (r: SolverError)
        ensures
            r@ == SolverErrorKind::Response(err),
    {
        SolverError { kind: SolverErrorKind::Response(err) }
    }
}

impl vstd::std_specs::convert::FromSpecImpl<ResponseError> for SolverError {
    open spec fn obeys_from_spec() -> bool {
        true
    }

    open spec fn from_spec(err: ResponseError) -> SolverError {
        SolverError::of_kind(SolverErrorKind::Response(err))
    }
}

/// Type alias that has a `SolverError` as error variant.
pub type Result<T> = core::result::Result<T, SolverError>;

/// Possible responses from a call to `ipasir_solve`.
#[derive(Debug, Copy, Clone, PartialEq, Eq, Structural)]
pub enum SolveResponse {
    /// The solver found the input to be satisfiable.
    Sat,
    /// The solver found the input to be unsatisfiable.
    Unsat,
    /// The solver was interrupted.
    Interrupted,
}

/// The number by which the C interface reports the response `r` of a solve
/// call: `10` for satisfiable, `20` for unsatisfiable, `0` for interrupted.
pub open spec fn solve_response_code(r: SolveResponse) -> i32 {
    match r {
        SolveResponse::Sat => 10,
        SolveResponse::Unsat => 20,
        SolveResponse::Interrupted => 0,
    }
}

/// The C interface reports satisfiable as `10`, unsatisfiable as `20` and
/// interrupted as `0`.
pub proof fn lemma_solve_response_codes()
    ensures
        solve_response_code(SolveResponse::Sat) == 10,
        solve_response_code(SolveResponse::Unsat) == 20,
        solve_response_code(SolveResponse::Interrupted) == 0,
{
}

impl SolveResponse {
    /// Returns the number by which the C interface reports `self`.
    pub fn to_raw(self) -> (r: i32)
        ensures
            r == solve_response_code(self),
            self == SolveResponse::Sat ==> r == 10,
            self == SolveResponse::Unsat ==> r == 20,
            self == SolveResponse::Interrupted ==> r == 0,
    {
        match self {
            SolveResponse::Sat => 10,
            SolveResponse::Unsat => 20,
            SolveResponse::Interrupted => 0,
        }
    }
}

/// The assignment of a literal.
#[derive(Debug, Copy, Clone, PartialEq, Eq, Structural)]
pub enum LitValue {
    /// Any assignment is okay.
    DontCare,
    /// The literal is `true`.
    True,
    /// The literal is `false`.
    False,
}

/// Tells the solver to either stop solving process or continue.
///
/// # Note
///
/// Use this as return type of the `Solver::set_terminate` callback.
#[derive(Debug, Copy, Clone, PartialEq, Eq, Structural)]
pub enum SolveControl {
    /// Continue with the solving process.
    Continue,
    /// Stop the solving process.
    Stop,
}

/// The number by which the C interface receives the decision `c` of a
/// terminate callback: `0` to continue, `1` to stop.
pub open spec fn solve_control_code(c: SolveControl) -> i32 {
    match c {
        SolveControl::Continue => 0,
        SolveControl::Stop => 1,
    }
}

/// The C interface reads `0` from a terminate callback as "continue" and a
/// nonzero value, `1`, as "stop".
pub proof fn lemma_solve_control_codes()
    ensures
        solve_control_code(SolveControl::Continue) == 0,
        solve_control_code(SolveControl::Stop) == 1,
{
}

impl SolveControl {
    /// Returns the number by which the C interface receives `self`.
    pub fn to_raw(self) -> (r: i32)
        ensures
            r == solve_control_code(self),
            self == SolveControl::Continue ==> r == 0,
            self == SolveControl::Stop ==> r == 1,
    {
        match self {
            SolveControl::Continue => 0,
            SolveControl::Stop => 1,
        }
    }
}

/// The IPASIR interface a SAT solver has to implement to be conforming.
pub trait IpasirSolver {
    /// Returns name and version of the incremental SAT solving implementation.
    fn signature(&self) -> &'static str;

    /// Return a new incremental SAT solver.
    ///
    /// # States
    ///
    /// - **Required:** N/A
    /// - **After:** INPUT
    fn init() -> Self
        where
            Self: Sized,
    ;

    /// Adds a clause to the solver.
    ///
    /// The clause is defined to contain all yielded literals of the given iterator.
    ///
    /// # Note
    ///
    /// - Clauses added this way cannot be removed.
    /// - The addition of removable clauses can be simulated using
    ///   activation literals and assumptions.
    ///
    /// # States
    ///
    /// - **Required:** any
    /// - **After:** INPUT
    fn add_clause<I, L>(&mut self, lits: I)
        where
            I: IntoIterator<Item = L>,
            L: Into<Lit>,
    ;

    /// Adds the given literal as new assumption.
    ///
    /// # States
    ///
    /// - **Required:** any
    /// - **After:** INPUT
    fn assume_lit(&mut self, lit: Lit);

    /// Starts the solving process.
    ///
    /// # States
    ///
    /// - **Required:** any
    /// - **After:** any
    fn solve(&mut self) -> Result<SolveResponse>;

    /// Queries the assignment of the given literal.
    ///
    /// # States
    ///
    /// - **Required:** SAT
    /// - **After:** SAT
    fn val(&mut self, lit: Lit) -> Result<LitValue>;

    /// Queries if the given literal was used to prove unsatisfiability.
    ///
    /// # States
    ///
    /// - **Required:** UNSAT
    /// - **After:** UNSAT
    fn failed(&mut self, lit: Lit) -> Result<bool>;

    /// Set a callback handler used to indicate a terminate requirement to the solver.
    ///
    /// # Note
    ///
    /// The solver will periodically query this handler and check its return value during solving.
    ///
    /// # States
    ///
    /// - **Required:** any
    /// - **After:** same
    fn set_terminate<F>(&mut self, callback: F)
        where
            F: FnMut() -> SolveControl + 'static,
    ;

    /// Set a callback function used to extract learned clauses up to a given length from the solver.
    ///
    /// # Note
    ///
    /// - The solver will call this function for each learned clause that is not longer than the maximum length.
    /// - The solver calls the callback function with the parameter `state` that was passed into `set_learn`.
    ///
    /// # States
    ///
    /// - **Required:** any
    /// - **After:** same
    fn set_learn<F>(&mut self, max_len: usize, callback: F)
        where
            F: FnMut(Clause) + 'static,
    ;
}

} // verus!
