//! The values that pass through the C interface of an IPASIR solver, and the
//! decisions a Rust binding of that interface makes on them.

use vstd::prelude::*;

use crate::interface::{
    solve_response_code, LitValue, ResponseError, Result, SolveResponse, SolverError, SolverErrorKind,
};
use crate::types::{is_lit_value, InvalidLitVal, Lit};

verus! {

/// What a solve call answers to the raw response `raw` of `ipasir_solve`:
/// `10` is satisfiable, `20` unsatisfiable, `0` interrupted, and any other
/// value an invalid response.
pub open spec fn solve_response_of(raw: i32) -> Result<SolveResponse> {
    if raw == 0 {
        Ok(SolveResponse::Interrupted)
    } else if raw == 10 {
        Ok(SolveResponse::Sat)
    } else if raw == 20 {
        Ok(SolveResponse::Unsat)
    } else {
        Err(SolverError::of_kind(SolverErrorKind::Response(ResponseError::Solve(raw))))
    }
}

impl SolveResponse {
    /// Interprets the raw response of `ipasir_solve`.
    ///
    /// # Errors
    ///
    /// - `ResponseError::Solve(raw)` if `raw` is none of `0`, `10` and `20`.
    pub fn from_raw(raw: i32) -> (r: Result<SolveResponse>)
        ensures
            r == solve_response_of(raw),
            raw == 0 ==> r == Ok::<SolveResponse, SolverError>(SolveResponse::Interrupted),
            raw == 10 ==> r == Ok::<SolveResponse, SolverError>(SolveResponse::Sat),
            raw == 20 ==> r == Ok::<SolveResponse, SolverError>(SolveResponse::Unsat),
            raw != 0 && raw != 10 && raw != 20 ==> (r matches Err(e)
                && e@ == SolverErrorKind::Response(ResponseError::Solve(raw))),
    {
        if raw == 0 {
            Ok(SolveResponse::Interrupted)
        } else if raw == 10 {
            Ok(SolveResponse::Sat)
        } else if raw == 20 {
            Ok(SolveResponse::Unsat)
        } else {
            Err(SolverError::from(ResponseError::Solve(raw)))
        }
    }
}

/// Reading back the code of a solve response gives that response, and the
/// three responses have distinct codes.
pub proof fn lemma_solve_response_roundtrip(r: SolveResponse, q: SolveResponse)
    ensures
        solve_response_of(solve_response_code(r)) == Ok::<SolveResponse, SolverError>(r),
        solve_response_code(r) == solve_response_code(q) ==> r == q,
{
}

/// The solve answers of the C interface: `0` is interrupted, `10`
/// satisfiable, `20` unsatisfiable, and every other value is an invalid
/// `solve` response that carries the value.
pub proof fn lemma_solve_response_answers(raw: i32)
    ensures
        raw == 0 ==> solve_response_of(raw) == Ok::<SolveResponse, SolverError>(SolveResponse::Interrupted),
        raw == 10 ==> solve_response_of(raw) == Ok::<SolveResponse, SolverError>(SolveResponse::Sat),
        raw == 20 ==> solve_response_of(raw) == Ok::<SolveResponse, SolverError>(SolveResponse::Unsat),
        raw != 0 && raw != 10 && raw != 20 ==> (solve_response_of(raw) matches Err(e)
            && e@ == SolverErrorKind::Response(ResponseError::Solve(raw))),
{
    SolverError::lemma_of_kind(SolverErrorKind::Response(ResponseError::Solve(raw)));
}

/// What a value query of the literal represented by `lit` answers to the raw
/// response `raw` of `ipasir_val`: `lit` is true, `-lit` false, `0` don't
/// care, and any other value an invalid response.
pub open spec fn lit_value_of(lit: i32, raw: i32) -> Result<LitValue> {
    if raw == 0 {
        Ok(LitValue::DontCare)
    } else if raw == lit {
        Ok(LitValue::True)
    } else if raw == -lit {
        Ok(LitValue::False)
    } else {
        Err(SolverError::of_kind(SolverErrorKind::Response(ResponseError::Val(raw))))
    }
}

impl LitValue {
    /// Interprets the raw response of `ipasir_val` for the literal `lit`.
    ///
    /// # Errors
    ///
    /// - `ResponseError::Val(raw)` if `raw` is none of `lit`, `-lit` and `0`.
    pub fn from_raw(lit: Lit, raw: i32) -> (r: Result<LitValue>)
        ensures
            r == lit_value_of(lit@, raw),
            raw == lit@ ==> r == Ok::<LitValue, SolverError>(LitValue::True),
            raw == -lit@ ==> r == Ok::<LitValue, SolverError>(LitValue::False),
            raw == 0 ==> r == Ok::<LitValue, SolverError>(LitValue::DontCare),
            raw != lit@ && raw != -lit@ && raw != 0 ==> (r matches Err(e)
                && e@ == SolverErrorKind::Response(ResponseError::Val(raw))),
    {
        let l = lit.to_raw();
        if raw == 0 {
            Ok(LitValue::DontCare)
        } else if raw == l {
            Ok(LitValue::True)
        } else if raw == -l {
            Ok(LitValue::False)
        } else {
            Err(SolverError::from(ResponseError::Val(raw)))
        }
    }
}

/// The value answers of the C interface for a literal `lit`: `lit` itself
/// means true, `-lit` false, `0` don't care, and every other value is an
/// invalid `val` response that carries the value.
pub proof fn lemma_lit_value_answers(lit: i32, raw: i32)
    requires
        lit != 0,
        lit != i32::MIN,
    ensures
        raw == lit ==> lit_value_of(lit, raw) == Ok::<LitValue, SolverError>(LitValue::True),
        raw == -lit ==> lit_value_of(lit, raw) == Ok::<LitValue, SolverError>(LitValue::False),
        raw == 0 ==> lit_value_of(lit, raw) == Ok::<LitValue, SolverError>(LitValue::DontCare),
        raw != lit && raw != -lit && raw != 0 ==> (lit_value_of(lit, raw) matches Err(e)
            && e@ == SolverErrorKind::Response(ResponseError::Val(raw))),
{
    SolverError::lemma_of_kind(SolverErrorKind::Response(ResponseError::Val(raw)));
}

/// What a failed query answers to the raw response `raw` of
/// `ipasir_failed`: `1` if the literal was used to prove unsatisfiability,
/// `0` if not, and any other value an invalid response.
pub open spec fn failed_of(raw: i32) -> Result<bool> {
    if raw == 1 {
        Ok(true)
    } else if raw == 0 {
        Ok(false)
    } else {
        Err(SolverError::of_kind(SolverErrorKind::Response(ResponseError::Failed(raw))))
    }
}

/// Interprets the raw response of `ipasir_failed`.
///
/// # Errors
///
/// - `ResponseError::Failed(raw)` if `raw` is neither `0` nor `1`.
pub fn failed_from_raw(raw: i32) -> (r: Result<bool>)
    ensures
        r == failed_of(raw),
        raw == 1 ==> r == Ok::<bool, SolverError>(true),
        raw == 0 ==> r == Ok::<bool, SolverError>(false),
        raw != 0 && raw != 1 ==> (r matches Err(e)
            && e@ == SolverErrorKind::Response(ResponseError::Failed(raw))),
{
    if raw == 1 {
        Ok(true)
    } else if raw == 0 {
        Ok(false)
    } else {
        Err(SolverError::from(ResponseError::Failed(raw)))
    }
}

/// The failed answers of the C interface: `1` means the literal was used to
/// prove unsatisfiability, `0` that it was not, and every other value is an
/// invalid `failed` response that carries the value.
pub proof fn lemma_failed_answers(raw: i32)
    ensures
        raw == 1 ==> failed_of(raw) == Ok::<bool, SolverError>(true),
        raw == 0 ==> failed_of(raw) == Ok::<bool, SolverError>(false),
        raw != 0 && raw != 1 ==> (failed_of(raw) matches Err(e)
            && e@ == SolverErrorKind::Response(ResponseError::Failed(raw))),
{
    SolverError::lemma_of_kind(SolverErrorKind::Response(ResponseError::Failed(raw)));
}

/// The representations of the literals `lits`, in order.
pub open spec fn raw_values(lits: Seq<Lit>) -> Seq<i32> {
    lits.map_values(|l: Lit| l@)
}

/// The arguments of the `ipasir_add` calls that add the clause `lits`: its
/// literals in order, then the `0` that finalizes the clause.
pub open spec fn encoded_clause(lits: Seq<Lit>) -> Seq<i32> {
    raw_values(lits).push(0)
}

/// Returns the arguments of the `ipasir_add` calls that add the clause
/// made of `lits`.
pub fn encode_clause(lits: &[Lit]) -> (r: Vec<i32>)
    ensures
        r@ == encoded_clause(lits@),
        r@.len() == lits@.len() + 1,
        forall|i: int| 0 <= i < lits@.len() ==> r@[i] == lits@[i]@ && r@[i] != 0,
        r@[lits@.len() as int] == 0,
{
    let mut out: Vec<i32> = Vec::new();
    let n = lits.len();
    let mut i: usize = 0;
    while i < n
        invariant
            n == lits@.len(),
            i <= n,
            out@ == raw_values(lits@.take(i as int)),
            forall|j: int| 0 <= j < i ==> out@[j] != 0,
        decreases n - i,
    {
        out.push(lits[i].to_raw());
        i = i + 1;
        assert(out@ =~= raw_values(lits@.take(i as int)));
    }
    out.push(0);
    assert(lits@.take(n as int) =~= lits@);
    out
}

/// The `ipasir_add` arguments for a clause of `n` literals are `n + 1`
/// values: the literals' own values in order, each of them nonzero, and then
/// a single `0`, the only one, which finalizes the clause.
pub proof fn lemma_encoded_clause_shape(lits: Seq<Lit>)
    requires
        forall|i: int| 0 <= i < lits.len() ==> is_lit_value(#[trigger] lits[i]@),
    ensures
        encoded_clause(lits).len() == lits.len() + 1,
        forall|i: int| 0 <= i < lits.len() ==> encoded_clause(lits)[i] == lits[i]@,
        forall|i: int| 0 <= i < lits.len() ==> encoded_clause(lits)[i] != 0,
        encoded_clause(lits)[lits.len() as int] == 0,
{
    assert forall|i: int| 0 <= i < lits.len() implies encoded_clause(lits)[i] == lits[i]@
        && encoded_clause(lits)[i] != 0 by {
        assert(is_lit_value(lits[i]@));
    }
}

/// The position of the first `0` in `raw`, or the length of `raw` where it
/// holds no `0`: the number of literals of the zero-terminated clause that
/// `raw` starts with.
pub open spec fn clause_end(raw: Seq<i32>) -> nat
    decreases raw.len(),
{
    if raw.len() == 0 || raw[0] == 0 {
        0
    } else {
        1 + clause_end(raw.drop_first())
    }
}

/// Whether `n` is the position of the first `0` in `raw`, or the length of
/// `raw` where it holds no `0`.
pub open spec fn is_clause_end(raw: Seq<i32>, n: int) -> bool {
    &&& 0 <= n <= raw.len()
    &&& forall|i: int| 0 <= i < n ==> raw[i] != 0
    &&& n < raw.len() ==> raw[n] == 0
}

/// `clause_end` is the one position that `is_clause_end` describes.
pub proof fn lemma_clause_end(raw: Seq<i32>, n: int)
    requires
        is_clause_end(raw, n),
    ensures
        clause_end(raw) == n,
    decreases n,
{
    if n > 0 {
        let rest = raw.drop_first();
        assert(raw[0] != 0);
        assert(is_clause_end(rest, n - 1)) by {
            assert forall|i: int| 0 <= i < n - 1 implies rest[i] != 0 by {
                assert(rest[i] == raw[i + 1]);
            }
            if n - 1 < rest.len() {
                assert(rest[n - 1] == raw[n]);
            }
        }
        lemma_clause_end(rest, n - 1);
    }
}

/// The literal values of the zero-terminated learnt clause at the start of
/// `raw`, or the error for `i32::MIN` where such a value stands among them.
pub open spec fn learnt_clause(raw: Seq<i32>) -> core::result::Result<Seq<i32>, InvalidLitVal> {
    let body = raw.take(clause_end(raw) as int);
    if body.contains(i32::MIN) {
        Err(InvalidLitVal(i32::MIN))
    } else {
        Ok(body)
    }
}

/// Reads the literals of the zero-terminated learnt clause at the start of
/// `raw`, as a solver hands it to a learn callback.
///
/// # Errors
///
/// - `InvalidLitVal(i32::MIN)` if `i32::MIN` stands before the terminating `0`.
pub fn decode_learnt_clause(raw: &[i32]) -> (r: core::result::Result<Vec<Lit>, InvalidLitVal>)
    ensures
        r matches Ok(v) ==> learnt_clause(raw@) == Ok::<Seq<i32>, InvalidLitVal>(raw_values(v@)),
        r matches Err(e) ==> learnt_clause(raw@) == Err::<Seq<i32>, InvalidLitVal>(e),
        r matches Ok(v) ==> {
            &&& v@.len() <= raw@.len()
            &&& forall|i: int| 0 <= i < v@.len() ==> v@[i]@ == raw@[i] && raw@[i] != 0
            &&& v@.len() < raw@.len() ==> raw@[v@.len() as int] == 0
        },
        r matches Err(e) ==> {
            &&& e == InvalidLitVal(i32::MIN)
            &&& exists|i: int|
                0 <= i < raw@.len() && raw@[i] == i32::MIN && forall|j: int| 0 <= j < i ==> raw@[j] != 0
        },
{
    let n = raw.len();
    let mut end: usize = 0;
    while end < n && raw[end] != 0
        invariant
            n == raw@.len(),
            end <= n,
            forall|j: int| 0 <= j < end ==> raw@[j] != 0,
        decreases n - end,
    {
        end = end + 1;
    }
    proof {
        lemma_clause_end(raw@, end as int);
    }
    let ghost body = raw@.take(end as int);
    let mut out: Vec<Lit> = Vec::new();
    let mut k: usize = 0;
    while k < end
        invariant
            n == raw@.len(),
            end <= n,
            body == raw@.take(end as int),
            clause_end(raw@) == end,
            forall|j: int| 0 <= j < end ==> raw@[j] != 0,
            k <= end,
            out@.len() == k,
            raw_values(out@) == body.take(k as int),
            forall|j: int| 0 <= j < k ==> body[j] != i32::MIN,
        decreases end - k,
    {
        let v = raw[k];
        if v == i32::MIN {
            assert(body[k as int] == i32::MIN);
            assert(body.contains(i32::MIN));
            assert(raw@[k as int] == i32::MIN);
            assert(forall|j: int| 0 <= j < k ==> raw@[j] != 0);
            return Err(InvalidLitVal(v));
        }
        let lit = Lit::new_unchecked(v);
        out.push(lit);
        k = k + 1;
        assert(raw_values(out@) =~= body.take(k as int));
    }
    assert(body.take(end as int) =~= body);
    assert(!body.contains(i32::MIN));
    assert forall|i: int| 0 <= i < out@.len() implies out@[i]@ == raw@[i] && raw@[i] != 0 by {
        assert(raw_values(out@)[i] == body[i]);
    }
    Ok(out)
}

/// Decoding a learnt clause whose first `n` values are literal values,
/// followed by a `0` or by nothing, gives exactly those `n` values, in order.
pub proof fn lemma_learnt_clause_values(raw: Seq<i32>, n: int)
    requires
        0 <= n <= raw.len(),
        forall|i: int| 0 <= i < n ==> raw[i] != 0 && raw[i] != i32::MIN,
        n < raw.len() ==> raw[n] == 0,
    ensures
        learnt_clause(raw) matches Ok(vals) && vals.len() == n && forall|i: int|
            0 <= i < n ==> vals[i] == raw[i],
{
    lemma_clause_end(raw, n);
    let body = raw.take(n);
    assert(!body.contains(i32::MIN)) by {
        if body.contains(i32::MIN) {
            let i = choose|i: int| 0 <= i < body.len() && body[i] == i32::MIN;
            assert(raw[i] == i32::MIN);
        }
    }
}

/// Decoding a learnt clause that holds `i32::MIN` before its first `0` is
/// refused with the error for `i32::MIN`.
pub proof fn lemma_learnt_clause_refused(raw: Seq<i32>, i: int)
    requires
        0 <= i < raw.len(),
        raw[i] == i32::MIN,
        forall|j: int| 0 <= j < i ==> raw[j] != 0,
    ensures
        learnt_clause(raw) == Err::<Seq<i32>, InvalidLitVal>(InvalidLitVal(i32::MIN)),
{
    let n = clause_end(raw);
    lemma_clause_end_bound(raw);
    assert(raw.take(n as int)[i] == i32::MIN);
}

/// `clause_end` lies within `raw`, no `0` stands before it, and a `0`
/// stands at it unless it is the length of `raw`.
pub proof fn lemma_clause_end_bound(raw: Seq<i32>)
    ensures
        is_clause_end(raw, clause_end(raw) as int),
    decreases raw.len(),
{
    if raw.len() > 0 && raw[0] != 0 {
        let rest = raw.drop_first();
        lemma_clause_end_bound(rest);
        let m = clause_end(rest) as int;
        assert forall|j: int| 0 <= j < m + 1 implies raw[j] != 0 by {
            if j > 0 {
                assert(raw[j] == rest[j - 1]);
            }
        }
        if m + 1 < raw.len() {
            assert(raw[m + 1] == rest[m]);
        }
    }
}

/// Decoding the encoding of a clause gives back the clause: the arguments
/// of the `ipasir_add` calls that add a clause, read as a learnt clause, are
/// that clause's literals.
pub proof fn lemma_learnt_clause_of_encoded(lits: Seq<Lit>)
    requires
        forall|i: int| 0 <= i < lits.len() ==> is_lit_value(#[trigger] lits[i]@),
    ensures
        learnt_clause(encoded_clause(lits)) == Ok::<Seq<i32>, InvalidLitVal>(raw_values(lits)),
{
    let raw = encoded_clause(lits);
    let n = lits.len() as int;
    assert(is_clause_end(raw, n)) by {
        assert forall|i: int| 0 <= i < n implies raw[i] != 0 by {
            assert(raw[i] == lits[i]@);
        }
    }
    lemma_clause_end(raw, n);
    assert(raw.take(n) =~= raw_values(lits));
    assert(!raw_values(lits).contains(i32::MIN)) by {
        if raw_values(lits).contains(i32::MIN) {
            let i = choose|i: int| 0 <= i < n && raw_values(lits)[i] == i32::MIN;
            assert(lits[i]@ == i32::MIN);
        }
    }
}

/// Two sequences of literals with the same representations are equal.
pub proof fn lemma_raw_values_injective(a: Seq<Lit>, b: Seq<Lit>)
    ensures
        raw_values(a) == raw_values(b) <==> a == b,
{
    if raw_values(a) == raw_values(b) {
        assert(a.len() == raw_values(a).len());
        assert forall|i: int| 0 <= i < a.len() implies a[i] == b[i] by {
            assert(raw_values(a)[i] == raw_values(b)[i]);
            Lit::lemma_view_injective(a[i], b[i]);
        }
        assert(a =~= b);
    }
}

/// The largest clause length that `ipasir_set_learn` is asked for when the
/// caller asks for clauses of at most `max_len` literals: `max_len` itself,
/// or `i32::MAX` where `max_len` exceeds it.
pub open spec fn learn_limit_of(max_len: usize) -> i32 {
    if max_len > i32::MAX {
        i32::MAX
    } else {
        max_len as i32
    }
}

/// Returns the maximum clause length to hand to `ipasir_set_learn` for a
/// caller that wants learnt clauses of at most `max_len` literals.
pub fn learn_limit(max_len: usize) -> (r: i32)
    ensures
        r == learn_limit_of(max_len),
        max_len <= i32::MAX ==> r == max_len,
        max_len > i32::MAX ==> r == i32::MAX,
{
    if max_len > 2147483647 {
        i32::MAX
    } else {
        max_len as i32
    }
}

/// A caller that asks for learnt clauses of at most `max_len` literals
/// gets exactly that limit where the C interface can carry it, and the
/// largest limit it can carry otherwise.
pub proof fn lemma_learn_limit(max_len: usize)
    ensures
        max_len <= i32::MAX ==> learn_limit_of(max_len) == max_len,
        max_len > i32::MAX ==> learn_limit_of(max_len) == i32::MAX,
{
}

} // verus!
