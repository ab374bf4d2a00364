use vstd::prelude::*;

verus! {

/// Whether `v` is a value that a literal may carry: neither `0`, which has
/// no polarity, nor `i32::MIN`, which has no positive counterpart.
pub open spec fn is_lit_value(v: i32) -> bool {
    v != 0 && v != i32::MIN
}

/// The absolute value of `v`, as a mathematical integer.
pub open spec fn abs_value(v: int) -> int {
    if v < 0 { -v } else { v }
}

/// `abs_value` is the distance of `v` from zero: `v` itself where `v` is
/// not negative, and `-v` where it is.
pub proof fn lemma_abs_value(v: int)
    ensures
        v >= 0 ==> abs_value(v) == v,
        v < 0 ==> abs_value(v) == -v,
        abs_value(v) >= 0,
{
}

/// A variable of the IPASIR implementing solver.
#[derive(Debug, Copy, Clone, PartialEq, Eq, Structural)]
pub struct Var(i32);

impl Var {
    #[verifier::type_invariant]
    closed spec fn inv(self) -> bool {
        self.0 > 0
    }
}

impl Var {
    /// Two variables with the same representation are the same variable.
    pub proof fn lemma_view_injective(a: Var, b: Var)
        ensures
            a@ == b@ <==> a == b,
    {
    }
}

impl View for Var {
    type V = i32;

    closed spec fn view(&self) -> i32 {
        self.0
    }
}

impl Var {
    /// Returns the underlying `i32` representation of `self`, which is
    /// always positive.
    pub fn to_raw(self) -> (r: i32)
        ensures
            r == self@,
            r > 0,
    {
        proof { use_type_invariant(&self); }
        self.0
    }
}

/// A literal of the IPASIR implementing solver.
#[derive(Debug, Copy, Clone, PartialEq, Eq, Structural)]
pub struct Lit(i32);

impl Lit {
    #[verifier::type_invariant]
    closed spec fn inv(self) -> bool {
        is_lit_value(self.0)
    }

    /// The literal whose representation is `v`.
    pub closed spec fn from_value(v: i32) -> Lit {
        Lit(v)
    }

    /// The literal built from `v` is represented by `v`.
    pub proof fn lemma_from_value(v: i32)
        ensures
            Lit::from_value(v)@ == v,
    {
    }

    /// Two literals with the same representation are the same literal.
    pub proof fn lemma_view_injective(a: Lit, b: Lit)
        ensures
            a@ == b@ <==> a == b,
    {
    }
}

impl View for Lit {
    type V = i32;

    closed spec fn view(&self) -> i32 {
        self.0
    }
}

/// Encountered when trying to create a literal with an invalid value.
///
/// Invalid values are `0`, which has neither positive nor negative polarity
/// and is forbidden by the IPASIR specification, and `i32::MIN`, which has
/// no positive counterpart.
#[derive(Debug, Clone, PartialEq, Eq)]
pub struct InvalidLitVal(pub i32);

impl TryFrom<i32> for Lit {
    type Error = InvalidLitVal;

    fn try_from(val: i32) -> (r: Result<Lit, InvalidLitVal>)
        ensures
            is_lit_value(val) ==> (r matches Ok(l) && l@ == val),
            !is_lit_value(val) ==> r == Err::<Lit, InvalidLitVal>(InvalidLitVal(val)),
    {
        if val == 0 || val == i32::MIN {
            return Err(InvalidLitVal(val));
        }
        Ok(Lit(val))
    }
}

impl vstd::std_specs::convert::TryFromSpecImpl<i32> for Lit {
    open spec fn obeys_try_from_spec() -> bool {
        true
    }

    open spec fn try_from_spec(v: i32) -> Result<Lit, InvalidLitVal> {
        lit_of(v)
    }
}

/// What converting `v` into a literal gives: the literal represented by `v`
/// where `v` may carry one, else the error for `v`.
pub open spec fn lit_of(v: i32) -> Result<Lit, InvalidLitVal> {
    if is_lit_value(v) {
        Ok(Lit::from_value(v))
    } else {
        Err(InvalidLitVal(v))
    }
}

/// Converting a literal to its representation and back gives the literal.
pub proof fn lemma_lit_of_raw(l: Lit)
    requires
        is_lit_value(l@),
    ensures
        lit_of(l@) == Ok::<Lit, InvalidLitVal>(l),
{
}

/// A literal and its negation have the same variable.
pub proof fn lemma_negation_same_var(a: Lit, b: Lit, va: Var, vb: Var)
    requires
        b@ == -a@,
        va@ == abs_value(a@ as int),
        vb@ == abs_value(b@ as int),
    ensures
        va == vb,
{
    Var::lemma_view_injective(va, vb);
}

/// A literal is determined by its variable and its sign: two literals with
/// the same variable and the same sign are the same literal.
pub proof fn lemma_lit_determined_by_var_and_sign(a: Lit, b: Lit)
    requires
        abs_value(a@ as int) == abs_value(b@ as int),
        (a@ > 0) == (b@ > 0),
    ensures
        a == b,
{
}

/// The polarity of a literal.
#[derive(Debug, Copy, Clone, PartialEq, Eq, Structural)]
pub enum Sign {
    /// Positive polarity.
    Pos,
    /// Negative polarity.
    Neg,
}

impl Lit {
    /// Creates a new `Lit` from the given value, which the caller
    /// guarantees to be neither `0` nor `i32::MIN`.
    pub fn new_unchecked(val: i32) -> (r: Lit)
        requires
            is_lit_value(val),
        ensures
            r@ == val,
    {
        Lit(val)
    }

    /// Returns the underlying `i32` representation of `self`.
    pub fn to_raw(self) -> (r: i32)
        ensures
            r == self@,
            is_lit_value(r),
    {
        proof { use_type_invariant(&self); }
        self.0
    }

    /// Returns the variable of `self`.
    pub fn var(self) -> (r: Var)
        ensures
            r@ == abs_value(self@ as int),
            self@ > 0 ==> r@ == self@,
            self@ < 0 ==> r@ == -self@,
    {
        proof { use_type_invariant(&self); }
        let v = self.to_raw();
        if v < 0 {
            Var(-v)
        } else {
            Var(v)
        }
    }

    /// Returns the sign of `self`.
    pub fn sign(self) -> (r: Sign)
        ensures
            r == (if self@ > 0 { Sign::Pos } else { Sign::Neg }),
    {
        if self.to_raw() > 0 {
            Sign::Pos
        } else {
            Sign::Neg
        }
    }
}


/// A clause from the IPASIR solver: a sequence of literals.
pub struct Clause<'a> {
    /// The literals of the clause.
    lits: &'a [Lit],
}

impl<'a> View for Clause<'a> {
    type V = Seq<Lit>;

    closed spec fn view(&self) -> Seq<Lit> {
        self.lits@
    }
}

impl<'a> Clause<'a> {
    /// The clause made of the literals `lits`.
    pub closed spec fn from_lits(lits: &'a [Lit]) -> Clause<'a> {
        Clause { lits }
    }

    /// The clause made of `lits` holds exactly the literals of `lits`.
    pub proof fn lemma_from_lits(lits: &'a [Lit])
        ensures
            Clause::from_lits(lits)@ == lits@,
    {
    }
}

impl<'a> From<&'a [Lit]> for Clause<'a> {
    fn from(lits: &'a [Lit]) -> (r: Clause<'a>)
        ensures
            r@ == lits@,
    {
        Clause { lits }
    }
}

impl<'a> vstd::std_specs::convert::FromSpecImpl<&'a [Lit]> for Clause<'a> {
    open spec fn obeys_from_spec() -> bool {
        true
    }

    open spec fn from_spec(lits: &'a [Lit]) -> Clause<'a> {
        Clause::from_lits(lits)
    }
}

impl<'a> Clause<'a> {
    /// Returns the length of the clause.
    pub fn len(&self) -> (r: usize)
        ensures
            r == self@.len(),
    {
        self.lits.len()
    }

    /// Returns `true` if the clause is empty.
    ///
    /// # Note
    ///
    /// Normally a clause should never be empty.
    pub fn is_empty(&self) -> (r: bool)
        ensures
            r == (self@.len() == 0),
    {
        self.lits.len() == 0
    }

    /// Returns the `i`-th literal of the clause, or `None` if the clause has
    /// no more than `i` literals.
    pub fn get(&self, i: usize) -> (r: Option<Lit>)
        ensures
            r == (if i < self@.len() { Some(self@[i as int]) } else { None::<Lit> }),
    {
        if i < self.lits.len() {
            Some(self.lits[i])
        } else {
            None
        }
    }

    /// Returns an iterator over the literals of the clause.
    pub fn iter(&self) -> (r: LitIter<'a>)
        ensures
            r@ == self@,
    {
        LitIter { lits: self.lits, front: 0, back: self.lits.len() }
    }
}

impl<'a> Clause<'a> {
    /// Whether `index` is a position inside the clause, or a range of
    /// positions inside it: what indexing the clause with `index` requires.
    pub closed spec fn index_ok<Idx: core::slice::SliceIndex<[Lit]>>(&self, index: Idx) -> bool {
        vstd::slice::SliceIndexSpec::index_req(&index, self.lits)
    }

    /// Whether `r` is what indexing the clause with `index` gives.
    pub closed spec fn index_gives<Idx: core::slice::SliceIndex<[Lit]>>(
        &self,
        index: Idx,
        r: &<Idx as core::slice::SliceIndex<[Lit]>>::Output,
    ) -> bool {
        call_ensures(<Idx as core::slice::SliceIndex<[Lit]>>::index, (index, self.lits), r)
    }

    /// Indexing with a position `i` is allowed exactly inside the clause,
    /// and gives the literal at `i`.
    pub proof fn lemma_index_position(&self, i: usize, r: &Lit)
        ensures
            self.index_ok(i) <==> i < self@.len(),
            self.index_gives(i, r) ==> *r == self@[i as int],
    {
    }

    /// Indexing with a range `lo..hi` is allowed exactly where
    /// `lo <= hi <= len`, and gives the literals from `lo` up to `hi`.
    pub proof fn lemma_index_range(&self, index: core::ops::Range<usize>, r: &[Lit])
        ensures
            self.index_ok(index) <==> index.start <= index.end <= self@.len(),
            self.index_gives(index, r) ==> r@ == self@.subrange(
                index.start as int,
                index.end as int,
            ),
    {
    }
}

impl<'a, Idx: core::slice::SliceIndex<[Lit]>> core::ops::Index<Idx> for Clause<'a> {
    type Output = <Idx as core::slice::SliceIndex<[Lit]>>::Output;

    /// Returns the literal at a position, or the literals of a range of
    /// positions, of the clause.
    fn index(&self, index: Idx) -> (r: &Self::Output)
        ensures
            self.index_gives(index, r),
    {
        &self.lits[index]
    }
}

impl<'a, Idx: core::slice::SliceIndex<[Lit]>> vstd::std_specs::core::IndexSpecImpl<Idx> for Clause<'a> {
    open spec fn index_req(&self, index: &Idx) -> bool {
        self.index_ok(*index)
    }
}

/// Iterator over the literals of a clause.
///
/// It yields the literals that lie between its front and its back position;
/// `next` takes from the front and `next_back` from the back.
#[derive(Debug)]
pub struct LitIter<'a> {
    /// The literals of the clause that is iterated over.
    lits: &'a [Lit],
    /// The position of the next literal that `next` yields.
    front: usize,
    /// One past the position of the next literal that `next_back` yields.
    back: usize,
}

impl<'a> LitIter<'a> {
    #[verifier::type_invariant]
    closed spec fn inv(self) -> bool {
        self.front <= self.back <= self.lits@.len()
    }
}

impl<'a> View for LitIter<'a> {
    type V = Seq<Lit>;

    /// The literals that are still to be yielded, in order.
    closed spec fn view(&self) -> Seq<Lit> {
        self.lits@.subrange(self.front as int, self.back as int)
    }
}

impl<'a> Clone for LitIter<'a> {
    /// Returns an iterator that yields what `self` is still to yield.
    fn clone(&self) -> (r: LitIter<'a>)
        ensures
            r@ == self@,
    {
        proof { use_type_invariant(self); }
        LitIter { lits: self.lits, front: self.front, back: self.back }
    }
}

impl<'a> LitIter<'a> {
    /// Returns the number of literals that are still to be yielded.
    pub fn len(&self) -> (r: usize)
        ensures
            r == self@.len(),
    {
        proof { use_type_invariant(self); }
        self.back - self.front
    }

    /// Yields the next literal from the front, or `None` once every literal
    /// has been yielded.
    pub fn next(&mut self) -> (r: Option<Lit>)
        ensures
            old(self)@.len() == 0 ==> r == None::<Lit> && final(self)@ == old(self)@,
            old(self)@.len() > 0 ==> r == Some(old(self)@[0]) && final(self)@ == old(self)@.drop_first(),
            final(self)@ == remaining_after(old(self)@, seq![true]),
    {
        proof { lemma_remaining_after_one(old(self)@, true); }
        proof { use_type_invariant(&*self); }
        if self.front < self.back {
            let lit = self.lits[self.front];
            self.front = self.front + 1;
            assert(self@ =~= old(self)@.drop_first());
            Some(lit)
        } else {
            None
        }
    }

    /// Yields the next literal from the back, or `None` once every literal
    /// has been yielded.
    pub fn next_back(&mut self) -> (r: Option<Lit>)
        ensures
            old(self)@.len() == 0 ==> r == None::<Lit> && final(self)@ == old(self)@,
            old(self)@.len() > 0 ==> r == Some(old(self)@.last()) && final(self)@ == old(self)@.drop_last(),
            final(self)@ == remaining_after(old(self)@, seq![false]),
    {
        proof { lemma_remaining_after_one(old(self)@, false); }
        proof { use_type_invariant(&*self); }
        if self.front < self.back {
            self.back = self.back - 1;
            let lit = self.lits[self.back];
            assert(self@ =~= old(self)@.drop_last());
            Some(lit)
        } else {
            None
        }
    }
}

/// The literals that an iterator which had `lits` still to yield has left
/// after the calls `steps`, where `true` stands for a call of `next` and
/// `false` for a call of `next_back`: each call that finds a literal takes
/// it from its end, and a call on an exhausted iterator leaves it as it is.
pub open spec fn remaining_after(lits: Seq<Lit>, steps: Seq<bool>) -> Seq<Lit>
    decreases steps.len(),
{
    if steps.len() == 0 {
        lits
    } else {
        let prev = remaining_after(lits, steps.drop_last());
        if prev.len() == 0 {
            prev
        } else if steps.last() {
            prev.drop_first()
        } else {
            prev.drop_last()
        }
    }
}

/// One more call after the calls `steps` acts on what those calls left.
pub proof fn lemma_remaining_after_step(lits: Seq<Lit>, steps: Seq<bool>, step: bool)
    ensures
        remaining_after(lits, steps.push(step)) == remaining_after(
            remaining_after(lits, steps),
            seq![step],
        ),
{
    let p = steps.push(step);
    assert(p.drop_last() =~= steps);
    assert(p.last() == step);
    lemma_remaining_after_one(remaining_after(lits, steps), step);
}

/// One call acts on what the iterator still has to yield as `next` or
/// `next_back` says.
pub proof fn lemma_remaining_after_one(lits: Seq<Lit>, step: bool)
    ensures
        remaining_after(lits, seq![step]) == (if lits.len() == 0 {
            lits
        } else if step {
            lits.drop_first()
        } else {
            lits.drop_last()
        }),
{
    let one = seq![step];
    assert(one.drop_last() =~= Seq::<bool>::empty());
    assert(remaining_after(lits, one.drop_last()) == lits);
}

/// The number of calls of `next` among the calls `steps`.
pub open spec fn fronts_taken(steps: Seq<bool>) -> nat
    decreases steps.len(),
{
    if steps.len() == 0 {
        0
    } else {
        fronts_taken(steps.drop_last()) + if steps.last() { 1nat } else { 0nat }
    }
}

/// After `k` calls of `next` and `next_back`, in any mix, on an iterator
/// that had `lits` still to yield and `k <= lits.len()`, the iterator still
/// yields the literals of `lits` between the `f` taken from the front and
/// the `k - f` taken from the back, so its `len` is `lits.len() - k`; that
/// many further calls of `next` yield literals before the first `None`.
pub proof fn lemma_remaining_after(lits: Seq<Lit>, steps: Seq<bool>)
    requires
        steps.len() <= lits.len(),
    ensures
        fronts_taken(steps) <= steps.len(),
        remaining_after(lits, steps) == lits.subrange(
            fronts_taken(steps) as int,
            lits.len() - (steps.len() - fronts_taken(steps)),
        ),
        remaining_after(lits, steps).len() == lits.len() - steps.len(),
    decreases steps.len(),
{
    if steps.len() > 0 {
        let before = steps.drop_last();
        lemma_remaining_after(lits, before);
        let prev = remaining_after(lits, before);
        let f = fronts_taken(before) as int;
        let b = before.len() - f;
        assert(prev.len() > 0);
        if steps.last() {
            assert(prev.drop_first() =~= lits.subrange(f + 1, lits.len() - b));
        } else {
            assert(prev.drop_last() =~= lits.subrange(f, lits.len() - b - 1));
        }
    } else {
        assert(lits.subrange(0, lits.len() as int) =~= lits);
    }
}

} // verus!
