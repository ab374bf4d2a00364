use ipasir::{
    decode_learnt_clause, encode_clause, failed_from_raw, learn_limit, InvalidLitVal, Lit,
    LitValue, ResponseError, SolveControl, SolveResponse, SolverError, SolverErrorKind,
};
use std::convert::TryFrom;

fn lit(v: i32) -> Lit {
    Lit::try_from(v).unwrap()
}

#[test]
fn solve_response_codes() {
    assert_eq!(SolveResponse::Sat.to_raw(), 10);
    assert_eq!(SolveResponse::Unsat.to_raw(), 20);
    assert_eq!(SolveResponse::Interrupted.to_raw(), 0);
}

#[test]
fn solve_response_from_raw() {
    assert_eq!(SolveResponse::from_raw(0), Ok(SolveResponse::Interrupted));
    assert_eq!(SolveResponse::from_raw(10), Ok(SolveResponse::Sat));
    assert_eq!(SolveResponse::from_raw(20), Ok(SolveResponse::Unsat));
    let err = SolveResponse::from_raw(7).unwrap_err();
    assert_eq!(err.kind(), &SolverErrorKind::Response(ResponseError::Solve(7)));
    for r in [SolveResponse::Sat, SolveResponse::Unsat, SolveResponse::Interrupted] {
        assert_eq!(SolveResponse::from_raw(r.to_raw()), Ok(r));
    }
}

#[test]
fn lit_value_from_raw() {
    let l = lit(4);
    assert_eq!(LitValue::from_raw(l, 4), Ok(LitValue::True));
    assert_eq!(LitValue::from_raw(l, -4), Ok(LitValue::False));
    assert_eq!(LitValue::from_raw(l, 0), Ok(LitValue::DontCare));
    let err = LitValue::from_raw(l, 5).unwrap_err();
    assert_eq!(err.kind(), &SolverErrorKind::Response(ResponseError::Val(5)));
    let n = lit(-9);
    assert_eq!(LitValue::from_raw(n, -9), Ok(LitValue::True));
    assert_eq!(LitValue::from_raw(n, 9), Ok(LitValue::False));
}

#[test]
fn failed_from_raw_values() {
    assert_eq!(failed_from_raw(1), Ok(true));
    assert_eq!(failed_from_raw(0), Ok(false));
    let err = failed_from_raw(2).unwrap_err();
    assert_eq!(err.kind(), &SolverErrorKind::Response(ResponseError::Failed(2)));
}

#[test]
fn solve_control_codes() {
    assert_eq!(SolveControl::Continue.to_raw(), 0);
    assert_eq!(SolveControl::Stop.to_raw(), 1);
}

#[test]
fn encode_clause_appends_terminator() {
    assert_eq!(encode_clause(&[lit(1), lit(-2), lit(3)]), vec![1, -2, 3, 0]);
    assert_eq!(encode_clause(&[]), vec![0]);
}

#[test]
fn decode_learnt_clause_reads_up_to_terminator() {
    assert_eq!(decode_learnt_clause(&[1, -2, 3, 0, 5]), Ok(vec![lit(1), lit(-2), lit(3)]));
    assert_eq!(decode_learnt_clause(&[0, 1]), Ok(vec![]));
    assert_eq!(decode_learnt_clause(&[]), Ok(vec![]));
    assert_eq!(decode_learnt_clause(&[4, 5]), Ok(vec![lit(4), lit(5)]));
}

#[test]
fn decode_learnt_clause_rejects_int_min() {
    assert_eq!(decode_learnt_clause(&[1, i32::MIN, 0]), Err(InvalidLitVal(i32::MIN)));
    assert_eq!(decode_learnt_clause(&[1, 0, i32::MIN]), Ok(vec![lit(1)]));
}

#[test]
fn decode_of_encode_is_identity() {
    let lits = vec![lit(7), lit(-8), lit(i32::MAX), lit(i32::MIN + 1)];
    assert_eq!(decode_learnt_clause(&encode_clause(&lits)), Ok(lits));
}

#[test]
fn learn_limit_saturates() {
    assert_eq!(learn_limit(0), 0);
    assert_eq!(learn_limit(12), 12);
    assert_eq!(learn_limit(i32::MAX as usize), i32::MAX);
    assert_eq!(learn_limit(usize::MAX), i32::MAX);
}

#[test]
fn error_conversions_and_messages() {
    let e = SolverError::from(InvalidLitVal(-3));
    assert_eq!(e.kind(), &SolverErrorKind::Lit(InvalidLitVal(-3)));
    assert_eq!(e.to_string(), "invalid literal value -3");
    let e = SolverError::from(ResponseError::Solve(11));
    assert_eq!(e.kind(), &SolverErrorKind::Response(ResponseError::Solve(11)));
    assert_eq!(e.to_string(), "invalid response 11 from solve");
    assert_eq!(ResponseError::Val(-1).to_string(), "invalid response -1 from val");
    assert_eq!(ResponseError::Failed(2).to_string(), "invalid response 2 from failed");
    assert_eq!(SolverErrorKind::InvalidSolverState.to_string(), "invalid solver state");
    assert_eq!(
        SolverErrorKind::Lit(InvalidLitVal(5)).to_string(),
        "invalid literal value 5"
    );
}
