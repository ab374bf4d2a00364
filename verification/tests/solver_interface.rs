use ipasir::{Clause, IpasirSolver, Lit, LitValue, Result, SolveControl, SolveResponse};
use std::convert::TryFrom;

/// The solver state of the test solver.
#[derive(Debug, Copy, Clone, PartialEq, Eq)]
enum SolverState {
    /// The input phase.
    Input,
    /// After evaluating to SAT.
    Sat,
}

/// A clause that owns its literals.
struct OwnedClause {
    /// The literals of the clause.
    #[allow(dead_code)]
    lits: Vec<Lit>,
}

/// The test solver implementing the IPASIR interface.
struct TestSolver {
    /// The current solver state.
    state: SolverState,
    /// All clauses.
    clauses: Vec<OwnedClause>,
    /// All assumption literals.
    assumptions: Vec<Lit>,
}

impl TestSolver {
    /// Returns the current solver state.
    fn solver_state(&self) -> SolverState {
        self.state
    }

    /// Returns an iterator over all clauses.
    fn clauses(&self) -> impl Iterator<Item = &OwnedClause> {
        self.clauses.iter()
    }
}

impl Default for TestSolver {
    fn default() -> Self {
        Self {
            state: SolverState::Input,
            clauses: Vec::new(),
            assumptions: Vec::new(),
        }
    }
}

impl IpasirSolver for TestSolver {
    fn signature(&self) -> &'static str {
        "TestSolver"
    }

    fn init() -> Self {
        Self::default()
    }

    fn add_clause<I, L>(&mut self, lits: I)
    where
        I: IntoIterator<Item = L>,
        L: Into<Lit>,
    {
        self.clauses.push(OwnedClause {
            lits: lits.into_iter().map(Into::into).collect(),
        })
    }

    fn assume_lit(&mut self, lit: Lit) {
        self.assumptions.push(lit)
    }

    fn solve(&mut self) -> Result<SolveResponse> {
        self.state = SolverState::Sat;
        Ok(SolveResponse::Sat)
    }

    fn val(&mut self, _lit: Lit) -> Result<LitValue> {
        Ok(LitValue::DontCare)
    }

    fn failed(&mut self, _lit: Lit) -> Result<bool> {
        Ok(false)
    }

    fn set_terminate<F>(&mut self, _callback: F)
    where
        F: FnMut() -> SolveControl + 'static,
    {
    }

    fn set_learn<F>(&mut self, _max_len: usize, _callback: F)
    where
        F: FnMut(Clause) + 'static,
    {
    }
}

#[test]
fn state_after_init() {
    assert_eq!(TestSolver::init().solver_state(), SolverState::Input)
}

#[test]
fn signature() {
    assert_eq!(TestSolver::init().signature(), "TestSolver")
}

#[test]
fn add_clause() {
    let mut solver = TestSolver::init();
    assert_eq!(solver.clauses().count(), 0);
    solver.add_clause([1, 2, 3].iter().map(|val| Lit::try_from(*val).unwrap()));
    assert_eq!(solver.clauses().count(), 1);
}

#[test]
fn test_solver_follows_the_interface() {
    let mut solver = TestSolver::init();
    solver.assume_lit(Lit::try_from(-4).unwrap());
    assert_eq!(solver.assumptions.len(), 1);
    assert_eq!(solver.solve().unwrap(), SolveResponse::Sat);
    assert_eq!(solver.solver_state(), SolverState::Sat);
    assert_eq!(solver.val(Lit::try_from(1).unwrap()).unwrap(), LitValue::DontCare);
    assert_eq!(solver.failed(Lit::try_from(1).unwrap()).unwrap(), false);
    solver.set_terminate(|| SolveControl::Stop);
    solver.set_learn(3, |_clause: Clause| {});
}
