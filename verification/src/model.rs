use vstd::prelude::*;
use vstd::string::*;

verus! {

/// The mathematical value of an executable value. Contracts in this crate
/// speak of these models rather than of the executable representations, so
/// that two representations of the same abstract value (say, two vectors
/// holding equal elements) are interchangeable in every stated property.
pub trait Model: Sized {
    /// The type of the mathematical model.
    type M;

    /// The model of this value.
    spec fn m(&self) -> Self::M;
}

/// Independent duplication. Composite shrink strategies derive many
/// candidates from the same original components without consuming them,
/// so every component must be duplicable; unlike `Clone`, the result is
/// known to carry the same model as the original.
pub trait Dup: Model {
    fn dup(&self) -> (r: Self)
        ensures
            r.m() == self.m(),
    ;
}

impl Model for () {
    type M = ();

    open spec fn m(&self) -> () {
        ()
    }
}

impl Dup for () {
    fn dup(&self) -> (r: ()) {
    }
}

impl Model for bool {
    type M = bool;

    open spec fn m(&self) -> bool {
        *self
    }
}

impl Dup for bool {
    fn dup(&self) -> (r: bool) {
        *self
    }
}

impl Model for char {
    type M = char;

    open spec fn m(&self) -> char {
        *self
    }
}

impl Dup for char {
    fn dup(&self) -> (r: char) {
        *self
    }
}

impl Model for u8 {
    type M = int;

    open spec fn m(&self) -> int {
        *self as int
    }
}

impl Dup for u8 {
    fn dup(&self) -> (r: u8) {
        *self
    }
}

impl Model for usize {
    type M = int;

    open spec fn m(&self) -> int {
        *self as int
    }
}

impl Dup for usize {
    fn dup(&self) -> (r: usize) {
        *self
    }
}

impl Model for i8 {
    type M = int;

    open spec fn m(&self) -> int {
        *self as int
    }
}

impl Dup for i8 {
    fn dup(&self) -> (r: i8) {
        *self
    }
}

impl Model for i64 {
    type M = int;

    open spec fn m(&self) -> int {
        *self as int
    }
}

impl Dup for i64 {
    fn dup(&self) -> (r: i64) {
        *self
    }
}

impl<A: Model, B: Model> Model for (A, B) {
    type M = (A::M, B::M);

    open spec fn m(&self) -> (A::M, B::M) {
        (self.0.m(), self.1.m())
    }
}

impl<A: Dup, B: Dup> Dup for (A, B) {
    fn dup(&self) -> (r: (A, B)) {
        (self.0.dup(), self.1.dup())
    }
}

impl<A: Model, B: Model, C: Model> Model for (A, B, C) {
    type M = (A::M, B::M, C::M);

    open spec fn m(&self) -> (A::M, B::M, C::M) {
        (self.0.m(), self.1.m(), self.2.m())
    }
}

impl<A: Dup, B: Dup, C: Dup> Dup for (A, B, C) {
    fn dup(&self) -> (r: (A, B, C)) {
        (self.0.dup(), self.1.dup(), self.2.dup())
    }
}

impl<A: Model, B: Model, C: Model, D: Model> Model for (A, B, C, D) {
    type M = (A::M, B::M, C::M, D::M);

    open spec fn m(&self) -> (A::M, B::M, C::M, D::M) {
        (self.0.m(), self.1.m(), self.2.m(), self.3.m())
    }
}

impl<A: Dup, B: Dup, C: Dup, D: Dup> Dup for (A, B, C, D) {
    fn dup(&self) -> (r: (A, B, C, D)) {
        (self.0.dup(), self.1.dup(), self.2.dup(), self.3.dup())
    }
}

impl<A: Model, B: Model, C: Model, D: Model, E: Model> Model for (A, B, C, D, E) {
    type M = (A::M, B::M, C::M, D::M, E::M);

    open spec fn m(&self) -> (A::M, B::M, C::M, D::M, E::M) {
        (self.0.m(), self.1.m(), self.2.m(), self.3.m(), self.4.m())
    }
}

impl<A: Dup, B: Dup, C: Dup, D: Dup, E: Dup> Dup for (A, B, C, D, E) {
    fn dup(&self) -> (r: (A, B, C, D, E)) {
        (self.0.dup(), self.1.dup(), self.2.dup(), self.3.dup(), self.4.dup())
    }
}

impl<A: Model, B: Model, C: Model, D: Model, E: Model, F: Model> Model for (A, B, C, D, E, F) {
    type M = (A::M, B::M, C::M, D::M, E::M, F::M);

    open spec fn m(&self) -> (A::M, B::M, C::M, D::M, E::M, F::M) {
        (self.0.m(), self.1.m(), self.2.m(), self.3.m(), self.4.m(), self.5.m())
    }
}

impl<A: Dup, B: Dup, C: Dup, D: Dup, E: Dup, F: Dup> Dup for (A, B, C, D, E, F) {
    fn dup(&self) -> (r: (A, B, C, D, E, F)) {
        (self.0.dup(), self.1.dup(), self.2.dup(), self.3.dup(), self.4.dup(), self.5.dup())
    }
}

/// The model of a sequence of values, element by element.
pub open spec fn seq_m<T: Model>(s: Seq<T>) -> Seq<T::M> {
    s.map_values(|t: T| t.m())
}

impl<T: Model> Model for Vec<T> {
    type M = Seq<T::M>;

    open spec fn m(&self) -> Seq<T::M> {
        seq_m(self@)
    }
}

impl<T: Dup> Dup for Vec<T> {
    fn dup(&self) -> (r: Vec<T>) {
        let mut r: Vec<T> = Vec::new();
        let mut i: usize = 0;
        while i < self.len()
            invariant
                i <= self@.len(),
                r@.len() == i,
                seq_m(r@) == seq_m(self@).take(i as int),
            decreases self@.len() - i,
        {
            r.push(self[i].dup());
            proof {
                assert(seq_m(r@) =~= seq_m(self@).take(i + 1));
            }
            i = i + 1;
        }
        proof {
            assert(seq_m(r@) =~= seq_m(self@));
        }
        r
    }
}

/// Append duplicates of the elements of `v` at indices `from..to` to `out`.
pub fn push_dup_range<T: Dup>(out: &mut Vec<T>, v: &Vec<T>, from: usize, to: usize)
    requires
        from <= to,
        to <= v@.len(),
    ensures
        seq_m(final(out)@) == seq_m(old(out)@) + seq_m(v@).subrange(from as int, to as int),
{
    let mut j: usize = from;
    let ghost base = seq_m(out@);
    proof {
        assert(seq_m(out@) =~= base + seq_m(v@).subrange(from as int, from as int));
    }
    while j < to
        invariant
            from <= j <= to,
            to <= v@.len(),
            out@.len() == base.len() + j - from,
            seq_m(out@) == base + seq_m(v@).subrange(from as int, j as int),
        decreases to - j,
    {
        let ghost pre = out@;
        out.push(v[j].dup());
        proof {
            assert(out@ == pre.push(out@[pre.len() as int]));
            assert(out@[pre.len() as int].m() == v@[j as int].m());
            assert(seq_m(v@).subrange(from as int, j + 1) =~= seq_m(v@).subrange(
                from as int,
                j as int,
            ) + seq![v@[j as int].m()]);
            assert(seq_m(out@).len() == base.len() + j + 1 - from);
            assert forall|k: int| 0 <= k < out@.len() implies seq_m(out@)[k] == (base + seq_m(
                v@,
            ).subrange(from as int, j + 1))[k] by {
                assert(seq_m(out@)[k] == out@[k].m());
                if k < pre.len() {
                    assert(out@[k] == pre[k]);
                    assert(seq_m(pre)[k] == pre[k].m());
                } else {
                    assert(out@[k].m() == v@[j as int].m());
                }
            }
            assert(seq_m(out@) =~= base + seq_m(v@).subrange(from as int, j + 1));
        }
        j = j + 1;
    }
    proof {
        assert(base.len() == old(out)@.len());
    }
}

impl<T: Model> Model for Box<T> {
    type M = T::M;

    open spec fn m(&self) -> T::M {
        (**self).m()
    }
}

impl<T: Dup> Dup for Box<T> {
    fn dup(&self) -> (r: Box<T>) {
        Box::new((**self).dup())
    }
}

impl<T: Model> Model for std::rc::Rc<T> {
    type M = T::M;

    open spec fn m(&self) -> T::M {
        (**self).m()
    }
}

impl<T: Dup> Dup for std::rc::Rc<T> {
    fn dup(&self) -> (r: std::rc::Rc<T>) {
        std::rc::Rc::new((**self).dup())
    }
}

impl Model for String {
    type M = Seq<char>;

    open spec fn m(&self) -> Seq<char> {
        self@
    }
}

impl Dup for String {
    fn dup(&self) -> (r: String) {
        String::from_str(self.as_str())
    }
}

impl<T: Model> Model for Option<T> {
    type M = Option<T::M>;

    open spec fn m(&self) -> Option<T::M> {
        match self {
            Option::None => Option::None,
            Option::Some(x) => Option::Some(x.m()),
        }
    }
}

impl<T: Dup> Dup for Option<T> {
    fn dup(&self) -> (r: Option<T>) {
        match self {
            Option::None => Option::None,
            Option::Some(x) => Option::Some(x.dup()),
        }
    }
}

impl<T: Model, U: Model> Model for Result<T, U> {
    type M = Result<T::M, U::M>;

    open spec fn m(&self) -> Result<T::M, U::M> {
        match self {
            Result::Ok(x) => Result::Ok(x.m()),
            Result::Err(e) => Result::Err(e.m()),
        }
    }
}

impl<T: Dup, U: Dup> Dup for Result<T, U> {
    fn dup(&self) -> (r: Result<T, U>) {
        match self {
            Result::Ok(x) => Result::Ok(x.dup()),
            Result::Err(e) => Result::Err(e.dup()),
        }
    }
}

} // verus!
