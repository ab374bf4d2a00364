use ipasir::{Clause, InvalidLitVal, Lit, Sign};
use std::convert::TryFrom;

fn lit(v: i32) -> Lit {
    Lit::try_from(v).unwrap()
}

#[test]
fn lit_accepts_nonzero_values() {
    assert_eq!(lit(1).to_raw(), 1);
    assert_eq!(lit(-7).to_raw(), -7);
    assert_eq!(lit(i32::MAX).to_raw(), i32::MAX);
    assert_eq!(lit(i32::MIN + 1).to_raw(), i32::MIN + 1);
}

#[test]
fn lit_rejects_zero_and_int_min() {
    assert_eq!(Lit::try_from(0), Err(InvalidLitVal(0)));
    assert_eq!(Lit::try_from(i32::MIN), Err(InvalidLitVal(i32::MIN)));
}

#[test]
fn lit_round_trips_through_its_representation() {
    for v in [1, -1, 42, -42, i32::MAX, i32::MIN + 1] {
        let l = lit(v);
        assert_eq!(Lit::try_from(l.to_raw()), Ok(l));
    }
}

#[test]
fn new_unchecked_keeps_the_value() {
    assert_eq!(Lit::new_unchecked(-3), lit(-3));
}

#[test]
fn var_is_the_absolute_value() {
    assert_eq!(lit(5).var().to_raw(), 5);
    assert_eq!(lit(-5).var().to_raw(), 5);
    assert_eq!(lit(i32::MIN + 1).var().to_raw(), i32::MAX);
    assert_eq!(lit(3).var(), lit(-3).var());
}

#[test]
fn sign_is_the_polarity() {
    assert_eq!(lit(5).sign(), Sign::Pos);
    assert_eq!(lit(-5).sign(), Sign::Neg);
}

#[test]
fn literal_is_determined_by_var_and_sign() {
    for v in [1, -1, 9, -9] {
        let l = lit(v);
        let back = match l.sign() {
            Sign::Pos => l.var().to_raw(),
            Sign::Neg => -l.var().to_raw(),
        };
        assert_eq!(back, v);
    }
}

#[test]
fn invalid_lit_val_message() {
    assert_eq!(InvalidLitVal(0).to_string(), "invalid literal value 0");
    assert_eq!(InvalidLitVal(-42).to_string(), "invalid literal value -42");
    assert_eq!(InvalidLitVal(i32::MIN).to_string(), "invalid literal value -2147483648");
    assert_eq!(InvalidLitVal(i32::MAX).to_string(), "invalid literal value 2147483647");
    assert_eq!(InvalidLitVal(1000).to_string(), "invalid literal value 1000");
}

#[test]
fn clause_len_and_get() {
    let lits = [lit(1), lit(-2), lit(3)];
    let clause = Clause::from(&lits[..]);
    assert_eq!(clause.len(), 3);
    assert!(!clause.is_empty());
    assert_eq!(clause.get(0), Some(lit(1)));
    assert_eq!(clause.get(1), Some(lit(-2)));
    assert_eq!(clause.get(2), Some(lit(3)));
    assert_eq!(clause.get(3), None);
}

#[test]
fn empty_clause() {
    let lits: [Lit; 0] = [];
    let clause = Clause::from(&lits[..]);
    assert_eq!(clause.len(), 0);
    assert!(clause.is_empty());
    assert_eq!(clause.get(0), None);
    assert_eq!(clause.iter().next(), None);
}

#[test]
fn iter_yields_the_literals_in_order() {
    let lits = [lit(1), lit(-2), lit(3)];
    let clause = Clause::from(&lits[..]);
    let mut iter = clause.iter();
    assert_eq!(iter.len(), 3);
    assert_eq!(iter.next(), Some(lit(1)));
    assert_eq!(iter.len(), 2);
    assert_eq!(iter.next(), Some(lit(-2)));
    assert_eq!(iter.next(), Some(lit(3)));
    assert_eq!(iter.len(), 0);
    assert_eq!(iter.next(), None);
    assert_eq!(iter.next(), None);
}

#[test]
fn iter_from_both_ends() {
    let lits = [lit(1), lit(-2), lit(3), lit(4)];
    let clause = Clause::from(&lits[..]);
    let mut iter = clause.iter();
    assert_eq!(iter.next_back(), Some(lit(4)));
    assert_eq!(iter.next(), Some(lit(1)));
    let mut copy = iter.clone();
    assert_eq!(iter.next_back(), Some(lit(3)));
    assert_eq!(iter.next_back(), Some(lit(-2)));
    assert_eq!(iter.next_back(), None);
    assert_eq!(iter.next(), None);
    assert_eq!(copy.len(), 2);
    assert_eq!(copy.next(), Some(lit(-2)));
    assert_eq!(copy.next(), Some(lit(3)));
    assert_eq!(copy.next(), None);
}

#[test]
fn clause_index_by_position_and_range() {
    let lits = [lit(1), lit(-2), lit(3), lit(-4)];
    let clause = Clause::from(&lits[..]);
    assert_eq!(clause[0], lit(1));
    assert_eq!(clause[3], lit(-4));
    assert_eq!(&clause[1..3], &[lit(-2), lit(3)][..]);
    assert_eq!(&clause[2..], &[lit(3), lit(-4)][..]);
    assert_eq!(&clause[..1], &[lit(1)][..]);
    assert_eq!(&clause[..], &lits[..]);
    assert_eq!(clause[4..].len(), 0);
}

#[test]
fn iter_len_after_mixed_calls() {
    let lits = [lit(1), lit(2), lit(3), lit(4), lit(5)];
    let clause = Clause::from(&lits[..]);
    let mut iter = clause.iter();
    iter.next();
    iter.next_back();
    iter.next();
    assert_eq!(iter.len(), lits.len() - 3);
    let mut yielded = 0;
    while let Some(_) = iter.next() {
        yielded += 1;
    }
    assert_eq!(yielded, 2);
    assert_eq!(iter.len(), 0);
}

#[test]
fn literal_and_negation_share_var() {
    for v in [1, 17, i32::MAX] {
        assert_eq!(lit(v).var(), lit(-v).var());
    }
}
