use vstd::prelude::*;
use crate::model::Dup;
use crate::model::Model;
use crate::model::seq_m;
use crate::lazy::Lazy;
use crate::lazy::MapFn;
use crate::lazy::MapStep;
use crate::lazy::NullStep;
use crate::lazy::Step;

verus! {

/// The shrink protocol: a shrinkable value produces a lazy sequence of
/// strictly simpler candidate values, the simplest first. The candidates
/// and their order are pinned down, per type, by `shrink_model`, a pure
/// function on the mathematical model of the value.
pub trait Shrink: Model {
    /// The step type that drives this type's lazy candidate sequence.
    type St: Step<Self>;

    /// The candidates, in order, that shrinking a value with the given
    /// model yields.
    spec fn shrink_model(m: Self::M) -> Seq<Self::M>;

    /// Produce the lazy sequence of simpler candidates for this value.
    fn shrink(&self) -> (l: Lazy<Self, Self::St>)
        ensures
            l.model() == Self::shrink_model(self.m()),
    ;
}

/// The tail of the bisection candidate list for an unsigned value `n`,
/// starting from the given divisor: `n - n/div`, `n - n/(2*div)`, ... while
/// the divisor stays below `n`.
pub open spec fn mpowers_from(n: int, div: int) -> Seq<int>
    decreases (if div < n {
        n - div
    } else {
        0
    }),
{
    if 2 <= div < n {
        seq![n - n / div] + mpowers_from(n, 2 * div)
    } else {
        Seq::empty()
    }
}

/// The full bisection candidate list for an unsigned value `n`: zero first,
/// then values progressively closer to `n`.
pub open spec fn mpowers_spec(n: int) -> Seq<int> {
    seq![0] + mpowers_from(n, 2)
}

/// The candidates for an unsigned value `n`, in order: nothing for zero,
/// the values just below `n` for small `n`, and the bisection list once
/// `n` reaches eight.
pub open spec fn shrink_uint_spec(n: int) -> Seq<int> {
    if n <= 0 {
        Seq::empty()
    } else if n == 1 {
        seq![0]
    } else if n == 2 {
        seq![0, 1]
    } else if n < 8 {
        seq![n - 3, n - 2, n - 1]
    } else {
        mpowers_spec(n)
    }
}

/// Generate the bisection candidates `[0, n - n/2, n - n/4, ...]` for `n`.
pub fn mpowers_of_two(n: usize) -> (r: Vec<usize>)
    ensures
        seq_m(r@) == mpowers_spec(n as int),
{
    let mut ret: Vec<usize> = Vec::new();
    ret.push(0);
    proof {
        assert(seq_m(ret@) =~= seq![0int]);
    }
    let mut div: u128 = 2;
    while div < n as u128
        invariant
            2 <= div,
            seq_m(ret@) + mpowers_from(n as int, div as int) == mpowers_spec(n as int),
        decreases (if (div as int) < n as int {
            n as int - div as int
        } else {
            0int
        }),
    {
        let ghost pre = seq_m(ret@);
        let d: usize = div as usize;
        let nd: usize = n / d;
        ret.push(n - nd);
        proof {
            assert(seq_m(ret@) =~= pre + seq![(n - nd) as int]);
            assert(mpowers_from(n as int, div as int) == seq![n as int - n as int / div as int]
                + mpowers_from(n as int, 2 * div as int));
            assert(pre + seq![(n - nd) as int] + mpowers_from(n as int, 2 * div as int) =~= pre
                + mpowers_from(n as int, div as int));
        }
        div = div * 2;
    }
    proof {
        assert(seq_m(ret@) + mpowers_from(n as int, div as int) =~= seq_m(ret@));
    }
    ret
}

/// Generate the full unsigned candidate list for `n`.
pub fn uint_candidates(n: usize) -> (r: Vec<usize>)
    ensures
        seq_m(r@) == shrink_uint_spec(n as int),
{
    if n == 0 {
        let r: Vec<usize> = Vec::new();
        proof {
            assert(seq_m(r@) =~= shrink_uint_spec(n as int));
        }
        r
    } else if n == 1 {
        let r: Vec<usize> = vec![0];
        proof {
            assert(seq_m(r@) =~= shrink_uint_spec(n as int));
        }
        r
    } else if n == 2 {
        let r: Vec<usize> = vec![0, 1];
        proof {
            assert(seq_m(r@) =~= shrink_uint_spec(n as int));
        }
        r
    } else if n < 8 {
        let r: Vec<usize> = vec![n - 3, n - 2, n - 1];
        proof {
            assert(seq_m(r@) =~= shrink_uint_spec(n as int));
        }
        r
    } else {
        mpowers_of_two(n)
    }
}

/// No candidate in the bisection tail reaches `n`.
pub proof fn lemma_mpowers_from_less(n: int, div: int)
    ensures
        forall|i: int|
            0 <= i < mpowers_from(n, div).len() ==> #[trigger] mpowers_from(n, div)[i] < n,
    decreases (if div < n {
        n - div
    } else {
        0
    }),
{
    if 2 <= div < n {
        assert(n / div >= 1) by (nonlinear_arith)
            requires
                2 <= div,
                div < n,
        ;
        lemma_mpowers_from_less(n, 2 * div);
        assert forall|i: int| 0 <= i < mpowers_from(n, div).len() implies #[trigger] mpowers_from(
            n,
            div,
        )[i] < n by {
            if i > 0 {
                assert(mpowers_from(n, div)[i] == mpowers_from(n, 2 * div)[i - 1]);
            }
        }
    }
}

/// The unsigned rule never proposes the value itself, nor anything at or
/// above it: every candidate is strictly smaller than `n`.
pub proof fn lemma_shrink_uint_less(n: int)
    ensures
        forall|i: int|
            0 <= i < shrink_uint_spec(n).len() ==> #[trigger] shrink_uint_spec(n)[i] < n,
{
    if n >= 8 {
        lemma_mpowers_from_less(n, 2);
        assert forall|i: int| 0 <= i < shrink_uint_spec(n).len() implies #[trigger] shrink_uint_spec(
            n,
        )[i] < n by {
            if i > 0 {
                assert(shrink_uint_spec(n)[i] == mpowers_from(n, 2)[i - 1]);
            }
        }
    }
}

impl Shrink for usize {
    type St = NullStep;

    open spec fn shrink_model(m: int) -> Seq<int> {
        shrink_uint_spec(m)
    }

    fn shrink(&self) -> (l: Lazy<usize, NullStep>) {
        let l = Lazy::new_from(uint_candidates(*self));
        proof {
            assert(l.model() =~= shrink_uint_spec(*self as int));
        }
        l
    }
}

impl Shrink for u8 {
    type St = NullStep;

    open spec fn shrink_model(m: int) -> Seq<int> {
        shrink_uint_spec(m)
    }

    fn shrink(&self) -> (l: Lazy<u8, NullStep>) {
        let c = uint_candidates(*self as usize);
        let ghost cm = seq_m(c@);
        let mut v: Vec<u8> = Vec::new();
        let mut i: usize = 0;
        proof {
            lemma_shrink_uint_less(*self as int);
        }
        while i < c.len()
            invariant
                i <= c@.len(),
                seq_m(c@) == cm,
                cm == shrink_uint_spec(*self as int),
                forall|j: int| 0 <= j < cm.len() ==> #[trigger] cm[j] < *self as int,
                v@.len() == i,
                seq_m(v@) == cm.take(i as int),
            decreases c@.len() - i,
        {
            let x: usize = c[i];
            proof {
                assert(cm[i as int] == x as int);
                assert(x as int <= 255);
            }
            let ghost vpre = v@;
            v.push(x as u8);
            proof {
                assert((x as u8) as int == x as int);
                assert(seq_m(v@).len() == i + 1);
                assert(cm.take(i + 1).len() == i + 1);
                assert forall|j: int| 0 <= j < i + 1 implies seq_m(v@)[j] == cm.take(i + 1)[j] by {
                    if j < i {
                        assert(seq_m(v@)[j] == v@[j].m());
                        assert(v@[j] == vpre[j]);
                        assert(seq_m(vpre)[j] == cm.take(i as int)[j]);
                    } else {
                        assert(v@[j] == x as u8);
                    }
                }
                assert(seq_m(v@) =~= cm.take(i + 1));
            }
            i = i + 1;
        }
        let l = Lazy::new_from(v);
        proof {
            assert(cm.take(i as int) =~= cm);
            assert(l.model() =~= shrink_uint_spec(*self as int));
        }
        l
    }
}

impl Shrink for () {
    type St = NullStep;

    open spec fn shrink_model(m: ()) -> Seq<()> {
        Seq::empty()
    }

    fn shrink(&self) -> (l: Lazy<(), NullStep>) {
        Lazy::new()
    }
}

impl Shrink for bool {
    type St = NullStep;

    open spec fn shrink_model(m: bool) -> Seq<bool> {
        Seq::empty()
    }

    fn shrink(&self) -> (l: Lazy<bool, NullStep>) {
        Lazy::new()
    }
}

impl Shrink for char {
    type St = NullStep;

    open spec fn shrink_model(m: char) -> Seq<char> {
        Seq::empty()
    }

    fn shrink(&self) -> (l: Lazy<char, NullStep>) {
        Lazy::new()
    }
}

impl Shrink for i8 {
    type St = NullStep;

    open spec fn shrink_model(m: int) -> Seq<int> {
        Seq::empty()
    }

    fn shrink(&self) -> (l: Lazy<i8, NullStep>) {
        Lazy::new()
    }
}

impl Shrink for i64 {
    type St = NullStep;

    open spec fn shrink_model(m: int) -> Seq<int> {
        Seq::empty()
    }

    fn shrink(&self) -> (l: Lazy<i64, NullStep>) {
        Lazy::new()
    }
}

/// The step behind shrinking a pair: first every candidate for the first
/// component is paired with a duplicate of the original second component,
/// then every candidate for the second component is paired with a
/// duplicate of the original first component.
#[allow(inconsistent_fields)]
pub enum PairStep<A: Shrink + Dup, B: Shrink + Dup> {
    Left { src: Lazy<A, A::St>, other: B },
    Right { src: Lazy<B, B::St>, other: A },
}

impl<A: Shrink + Dup, B: Shrink + Dup> Step<(A, B)> for PairStep<A, B> {
    open spec fn future(self) -> Seq<(A::M, B::M)> {
        match self {
            PairStep::Left { src, other } => src.model().map_values(|am: A::M| (am, other.m())),
            PairStep::Right { src, other } => src.model().map_values(|bm: B::M| (other.m(), bm)),
        }
    }

    open spec fn size(self) -> nat {
        match self {
            PairStep::Left { src, other } => src.size() + 1,
            PairStep::Right { src, other } => src.size() + 1,
        }
    }

    proof fn min_size(self) {
    }

    fn run(self) -> (r: (Vec<(A, B)>, Option<Self>)) {
        match self {
            PairStep::Left { mut src, other } => {
                let ghost src0 = src.model();
                match src.next() {
                    Option::Some(s) => {
                        let d = other.dup();
                        let mut out: Vec<(A, B)> = Vec::new();
                        out.push((s, d));
                        proof {
                            assert(seq_m(out@) + src.model().map_values(
                                |am: A::M| (am, other.m()),
                            ) =~= src0.map_values(|am: A::M| (am, other.m())));
                        }
                        (out, Option::Some(PairStep::Left { src, other }))
                    },
                    Option::None => {
                        proof {
                            assert(Seq::<(A::M, B::M)>::empty() =~= src0.map_values(
                                |am: A::M| (am, other.m()),
                            ));
                        }
                        (Vec::new(), Option::None)
                    },
                }
            },
            PairStep::Right { mut src, other } => {
                let ghost src0 = src.model();
                match src.next() {
                    Option::Some(s) => {
                        let d = other.dup();
                        let mut out: Vec<(A, B)> = Vec::new();
                        out.push((d, s));
                        proof {
                            assert(seq_m(out@) + src.model().map_values(
                                |bm: B::M| (other.m(), bm),
                            ) =~= src0.map_values(|bm: B::M| (other.m(), bm)));
                        }
                        (out, Option::Some(PairStep::Right { src, other }))
                    },
                    Option::None => {
                        proof {
                            assert(Seq::<(A::M, B::M)>::empty() =~= src0.map_values(
                                |bm: B::M| (other.m(), bm),
                            ));
                        }
                        (Vec::new(), Option::None)
                    },
                }
            },
        }
    }
}

impl<A: Shrink + Dup, B: Shrink + Dup> Shrink for (A, B) {
    type St = PairStep<A, B>;

    open spec fn shrink_model(m: (A::M, B::M)) -> Seq<(A::M, B::M)> {
        A::shrink_model(m.0).map_values(|am: A::M| (am, m.1)) + B::shrink_model(m.1).map_values(
            |bm: B::M| (m.0, bm),
        )
    }

    fn shrink(&self) -> (l: Lazy<(A, B), PairStep<A, B>>) {
        let mut l = Lazy::new();
        l.push_thunk(PairStep::Left { src: self.0.shrink(), other: self.1.dup() });
        l.push_thunk(PairStep::Right { src: self.1.shrink(), other: self.0.dup() });
        proof {
            assert(l.model() =~= Self::shrink_model(self.m()));
        }
        l
    }
}

/// Shrinking a pair yields exactly as many candidates as its two components
/// yield together: first every candidate for the first component, paired
/// with the unchanged second component, then every candidate for the second
/// component, paired with the unchanged first component.
pub proof fn lemma_pair_shrink_order<A: Shrink + Dup, B: Shrink + Dup>(m: (A::M, B::M))
    ensures
        <(A, B) as Shrink>::shrink_model(m).len() == A::shrink_model(m.0).len()
            + B::shrink_model(m.1).len(),
        forall|i: int|
            0 <= i < A::shrink_model(m.0).len() ==> #[trigger] <(A, B) as Shrink>::shrink_model(
                m,
            )[i] == (A::shrink_model(m.0)[i], m.1),
        forall|i: int|
            A::shrink_model(m.0).len() <= i < <(A, B) as Shrink>::shrink_model(m).len()
                ==> #[trigger] <(A, B) as Shrink>::shrink_model(m)[i] == (
                m.0,
                B::shrink_model(m.1)[i - A::shrink_model(m.0).len()],
            ),
{
}

/// Rebuilds a three-element tuple from its nested-pair form.
pub struct Flatten3;

impl<A: Shrink + Dup, B: Shrink + Dup, C: Shrink + Dup> MapFn<((A, B), C)> for Flatten3 {
    type Out = (A, B, C);

    open spec fn map_m(&self, a: ((A::M, B::M), C::M)) -> (A::M, B::M, C::M) {
        (a.0.0, a.0.1, a.1)
    }

    fn call(&self, a: ((A, B), C)) -> (r: (A, B, C)) {
        let ((x, y), z) = a;
        (x, y, z)
    }
}

impl<A: Shrink + Dup, B: Shrink + Dup, C: Shrink + Dup> Shrink for (A, B, C) {
    type St = MapStep<((A, B), C), PairStep<(A, B), C>, Flatten3>;

    open spec fn shrink_model(m: (A::M, B::M, C::M)) -> Seq<(A::M, B::M, C::M)> {
        A::shrink_model(m.0).map_values(|x: A::M| (x, m.1, m.2)) + B::shrink_model(
            m.1,
        ).map_values(|x: B::M| (m.0, x, m.2)) + C::shrink_model(m.2).map_values(
            |x: C::M| (m.0, m.1, x),
        )
    }

    fn shrink(&self) -> (l: Lazy<(A, B, C), MapStep<((A, B), C), PairStep<(A, B), C>, Flatten3>>) {
        let n: ((A, B), C) = ((self.0.dup(), self.1.dup()), self.2.dup());
        let mut l = Lazy::new();
        l.push_map(n.shrink(), Flatten3);
        proof {
            assert(l.model() =~= Self::shrink_model(self.m()));
        }
        l
    }
}

/// Rebuilds a four-element tuple from its nested-pair form.
pub struct Flatten4;

impl<A: Shrink + Dup, B: Shrink + Dup, C: Shrink + Dup, D: Shrink + Dup> MapFn<
    (((A, B), C), D),
> for Flatten4 {
    type Out = (A, B, C, D);

    open spec fn map_m(&self, a: (((A::M, B::M), C::M), D::M)) -> (A::M, B::M, C::M, D::M) {
        (a.0.0.0, a.0.0.1, a.0.1, a.1)
    }

    fn call(&self, a: (((A, B), C), D)) -> (r: (A, B, C, D)) {
        let (((x, y), z), w) = a;
        (x, y, z, w)
    }
}

impl<A: Shrink + Dup, B: Shrink + Dup, C: Shrink + Dup, D: Shrink + Dup> Shrink for (A, B, C, D) {
    type St = MapStep<(((A, B), C), D), PairStep<((A, B), C), D>, Flatten4>;

    open spec fn shrink_model(m: (A::M, B::M, C::M, D::M)) -> Seq<(A::M, B::M, C::M, D::M)> {
        A::shrink_model(m.0).map_values(|x: A::M| (x, m.1, m.2, m.3)) + B::shrink_model(
            m.1,
        ).map_values(|x: B::M| (m.0, x, m.2, m.3)) + C::shrink_model(m.2).map_values(
            |x: C::M| (m.0, m.1, x, m.3),
        ) + D::shrink_model(m.3).map_values(|x: D::M| (m.0, m.1, m.2, x))
    }

    fn shrink(&self) -> (l: Lazy<
        (A, B, C, D),
        MapStep<(((A, B), C), D), PairStep<((A, B), C), D>, Flatten4>,
    >) {
        let n: (((A, B), C), D) = (((self.0.dup(), self.1.dup()), self.2.dup()), self.3.dup());
        let mut l = Lazy::new();
        l.push_map(n.shrink(), Flatten4);
        proof {
            assert(l.model() =~= Self::shrink_model(self.m()));
        }
        l
    }
}

/// Rebuilds a five-element tuple from its nested-pair form.
pub struct Flatten5;

impl<
    A: Shrink + Dup,
    B: Shrink + Dup,
    C: Shrink + Dup,
    D: Shrink + Dup,
    E: Shrink + Dup,
> MapFn<((((A, B), C), D), E)> for Flatten5 {
    type Out = (A, B, C, D, E);

    open spec fn map_m(&self, a: ((((A::M, B::M), C::M), D::M), E::M)) -> (
        A::M,
        B::M,
        C::M,
        D::M,
        E::M,
    ) {
        (a.0.0.0.0, a.0.0.0.1, a.0.0.1, a.0.1, a.1)
    }

    fn call(&self, a: ((((A, B), C), D), E)) -> (r: (A, B, C, D, E)) {
        let ((((x, y), z), w), u) = a;
        (x, y, z, w, u)
    }
}

impl<
    A: Shrink + Dup,
    B: Shrink + Dup,
    C: Shrink + Dup,
    D: Shrink + Dup,
    E: Shrink + Dup,
> Shrink for (A, B, C, D, E) {
    type St = MapStep<((((A, B), C), D), E), PairStep<(((A, B), C), D), E>, Flatten5>;

    open spec fn shrink_model(m: (A::M, B::M, C::M, D::M, E::M)) -> Seq<
        (A::M, B::M, C::M, D::M, E::M),
    > {
        A::shrink_model(m.0).map_values(|x: A::M| (x, m.1, m.2, m.3, m.4)) + B::shrink_model(
            m.1,
        ).map_values(|x: B::M| (m.0, x, m.2, m.3, m.4)) + C::shrink_model(m.2).map_values(
            |x: C::M| (m.0, m.1, x, m.3, m.4),
        ) + D::shrink_model(m.3).map_values(|x: D::M| (m.0, m.1, m.2, x, m.4)) + E::shrink_model(
            m.4,
        ).map_values(|x: E::M| (m.0, m.1, m.2, m.3, x))
    }

    fn shrink(&self) -> (l: Lazy<
        (A, B, C, D, E),
        MapStep<((((A, B), C), D), E), PairStep<(((A, B), C), D), E>, Flatten5>,
    >) {
        let n: ((((A, B), C), D), E) = (
            (((self.0.dup(), self.1.dup()), self.2.dup()), self.3.dup()),
            self.4.dup(),
        );
        let mut l = Lazy::new();
        l.push_map(n.shrink(), Flatten5);
        proof {
            assert(l.model() =~= Self::shrink_model(self.m()));
        }
        l
    }
}

/// Rebuilds a six-element tuple from its nested-pair form.
pub struct Flatten6;

impl<
    A: Shrink + Dup,
    B: Shrink + Dup,
    C: Shrink + Dup,
    D: Shrink + Dup,
    E: Shrink + Dup,
    F: Shrink + Dup,
> MapFn<(((((A, B), C), D), E), F)> for Flatten6 {
    type Out = (A, B, C, D, E, F);

    open spec fn map_m(&self, a: (((((A::M, B::M), C::M), D::M), E::M), F::M)) -> (
        A::M,
        B::M,
        C::M,
        D::M,
        E::M,
        F::M,
    ) {
        (a.0.0.0.0.0, a.0.0.0.0.1, a.0.0.0.1, a.0.0.1, a.0.1, a.1)
    }

    fn call(&self, a: (((((A, B), C), D), E), F)) -> (r: (A, B, C, D, E, F)) {
        let (((((x, y), z), w), u), t) = a;
        (x, y, z, w, u, t)
    }
}

impl<
    A: Shrink + Dup,
    B: Shrink + Dup,
    C: Shrink + Dup,
    D: Shrink + Dup,
    E: Shrink + Dup,
    F: Shrink + Dup,
> Shrink for (A, B, C, D, E, F) {
    type St = MapStep<(((((A, B), C), D), E), F), PairStep<((((A, B), C), D), E), F>, Flatten6>;

    open spec fn shrink_model(m: (A::M, B::M, C::M, D::M, E::M, F::M)) -> Seq<
        (A::M, B::M, C::M, D::M, E::M, F::M),
    > {
        A::shrink_model(m.0).map_values(|x: A::M| (x, m.1, m.2, m.3, m.4, m.5)) + B::shrink_model(
            m.1,
        ).map_values(|x: B::M| (m.0, x, m.2, m.3, m.4, m.5)) + C::shrink_model(m.2).map_values(
            |x: C::M| (m.0, m.1, x, m.3, m.4, m.5),
        ) + D::shrink_model(m.3).map_values(|x: D::M| (m.0, m.1, m.2, x, m.4, m.5))
            + E::shrink_model(m.4).map_values(|x: E::M| (m.0, m.1, m.2, m.3, x, m.5))
            + F::shrink_model(m.5).map_values(|x: F::M| (m.0, m.1, m.2, m.3, m.4, x))
    }

    fn shrink(&self) -> (l: Lazy<
        (A, B, C, D, E, F),
        MapStep<(((((A, B), C), D), E), F), PairStep<((((A, B), C), D), E), F>, Flatten6>,
    >) {
        let n: (((((A, B), C), D), E), F) = (
            ((((self.0.dup(), self.1.dup()), self.2.dup()), self.3.dup()), self.4.dup()),
            self.5.dup(),
        );
        let mut l = Lazy::new();
        l.push_map(n.shrink(), Flatten6);
        proof {
            assert(l.model() =~= Self::shrink_model(self.m()));
        }
        l
    }
}

/// Wraps every mapped candidate back as a present optional value.
pub struct SomeFn;

impl<T: Model> MapFn<T> for SomeFn {
    type Out = Option<T>;

    open spec fn map_m(&self, a: T::M) -> Option<T::M> {
        Option::Some(a)
    }

    fn call(&self, a: T) -> (r: Option<T>) {
        Option::Some(a)
    }
}

impl<T: Shrink> Shrink for Option<T> {
    type St = MapStep<T, T::St, SomeFn>;

    open spec fn shrink_model(m: Option<T::M>) -> Seq<Option<T::M>> {
        match m {
            Option::None => Seq::empty(),
            Option::Some(x) => seq![Option::None] + T::shrink_model(x).map_values(
                |y: T::M| Option::Some(y),
            ),
        }
    }

    fn shrink(&self) -> (l: Lazy<Option<T>, MapStep<T, T::St, SomeFn>>) {
        let mut l = Lazy::new();
        match self {
            Option::None => {},
            Option::Some(x) => {
                l.push(Option::None);
                l.push_map(x.shrink(), SomeFn);
            },
        }
        proof {
            assert(l.model() =~= Self::shrink_model(self.m()));
        }
        l
    }
}

/// Shrinking a present optional value offers "empty" first, then every
/// candidate for the contained value, wrapped back as present.
pub proof fn lemma_option_shrink_order<T: Shrink>(x: T::M)
    ensures
        <Option<T> as Shrink>::shrink_model(Option::Some(x)).len() == 1 + T::shrink_model(
            x,
        ).len(),
        <Option<T> as Shrink>::shrink_model(Option::Some(x))[0] is None,
        forall|i: int|
            1 <= i < 1 + T::shrink_model(x).len() ==> #[trigger] <Option<T> as Shrink>::shrink_model(
                Option::Some(x),
            )[i] == Option::Some(T::shrink_model(x)[i - 1]),
{
}

/// The step behind shrinking a two-variant result: candidates for the
/// payload of whichever variant is present, wrapped back in that variant.
#[allow(inconsistent_fields)]
pub enum ResStep<T: Shrink, U: Shrink> {
    Oks { src: Lazy<T, T::St> },
    Errs { src: Lazy<U, U::St> },
}

impl<T: Shrink, U: Shrink> Step<Result<T, U>> for ResStep<T, U> {
    open spec fn future(self) -> Seq<Result<T::M, U::M>> {
        match self {
            ResStep::Oks { src } => src.model().map_values(|tm: T::M| Result::Ok(tm)),
            ResStep::Errs { src } => src.model().map_values(|um: U::M| Result::Err(um)),
        }
    }

    open spec fn size(self) -> nat {
        match self {
            ResStep::Oks { src } => src.size() + 1,
            ResStep::Errs { src } => src.size() + 1,
        }
    }

    proof fn min_size(self) {
    }

    fn run(self) -> (r: (Vec<Result<T, U>>, Option<Self>)) {
        match self {
            ResStep::Oks { mut src } => {
                let ghost src0 = src.model();
                match src.next() {
                    Option::Some(s) => {
                        let mut out: Vec<Result<T, U>> = Vec::new();
                        out.push(Result::Ok(s));
                        proof {
                            assert(seq_m(out@) + src.model().map_values(
                                |tm: T::M| Result::Ok(tm),
                            ) =~= src0.map_values(|tm: T::M| Result::Ok(tm)));
                        }
                        (out, Option::Some(ResStep::Oks { src }))
                    },
                    Option::None => {
                        proof {
                            assert(Seq::<Result<T::M, U::M>>::empty() =~= src0.map_values(
                                |tm: T::M| Result::Ok(tm),
                            ));
                        }
                        (Vec::new(), Option::None)
                    },
                }
            },
            ResStep::Errs { mut src } => {
                let ghost src0 = src.model();
                match src.next() {
                    Option::Some(s) => {
                        let mut out: Vec<Result<T, U>> = Vec::new();
                        out.push(Result::Err(s));
                        proof {
                            assert(seq_m(out@) + src.model().map_values(
                                |um: U::M| Result::Err(um),
                            ) =~= src0.map_values(|um: U::M| Result::Err(um)));
                        }
                        (out, Option::Some(ResStep::Errs { src }))
                    },
                    Option::None => {
                        proof {
                            assert(Seq::<Result<T::M, U::M>>::empty() =~= src0.map_values(
                                |um: U::M| Result::Err(um),
                            ));
                        }
                        (Vec::new(), Option::None)
                    },
                }
            },
        }
    }
}

impl<T: Shrink, U: Shrink> Shrink for Result<T, U> {
    type St = ResStep<T, U>;

    open spec fn shrink_model(m: Result<T::M, U::M>) -> Seq<Result<T::M, U::M>> {
        match m {
            Result::Ok(x) => T::shrink_model(x).map_values(|tm: T::M| Result::Ok(tm)),
            Result::Err(e) => U::shrink_model(e).map_values(|um: U::M| Result::Err(um)),
        }
    }

    fn shrink(&self) -> (l: Lazy<Result<T, U>, ResStep<T, U>>) {
        let mut l = Lazy::new();
        match self {
            Result::Ok(x) => {
                l.push_thunk(ResStep::Oks { src: x.shrink() });
            },
            Result::Err(e) => {
                l.push_thunk(ResStep::Errs { src: e.shrink() });
            },
        }
        proof {
            assert(l.model() =~= Self::shrink_model(self.m()));
        }
        l
    }
}

/// The two halves of a sequence, split at the index midpoint, offered only
/// when the sequence has more than two elements.
pub open spec fn halves_part<X>(m: Seq<X>) -> Seq<Seq<X>> {
    if m.len() > 2 {
        seq![m.take(m.len() as int / 2), m.skip(m.len() as int / 2)]
    } else {
        Seq::empty()
    }
}

/// The per-index candidates of a sequence, from position `i` on: for each
/// position in order, first the sequence with that element removed, then
/// every candidate for that element substituted in place.
pub open spec fn idx_part<T: Shrink>(m: Seq<T::M>, i: int) -> Seq<Seq<T::M>>
    decreases (if i < m.len() {
        m.len() - i
    } else {
        0
    }),
{
    if 0 <= i < m.len() {
        seq![m.remove(i)] + T::shrink_model(m[i]).map_values(|sm: T::M| m.update(i, sm))
            + idx_part::<T>(m, i + 1)
    } else {
        Seq::empty()
    }
}

/// Clamped distance from `i` up to `len`.
pub open spec fn dist(len: int, i: int) -> nat {
    if i < len {
        (len - i) as nat
    } else {
        0
    }
}

/// The step behind shrinking a homogeneous sequence. After the empty
/// sequence has been realized up front, it proceeds in phases: the two
/// halves, then for each index the removal candidate interleaved with the
/// in-place candidates for that index's element.
#[allow(inconsistent_fields)]
pub enum VecStep<T: Shrink + Dup> {
    Halves { v: Vec<T> },
    Index { i: usize, v: Vec<T> },
    ShrinkAt { i: usize, src: Lazy<T, T::St>, v: Vec<T> },
}

impl<T: Shrink + Dup> Step<Vec<T>> for VecStep<T> {
    open spec fn future(self) -> Seq<Seq<T::M>> {
        match self {
            VecStep::Halves { v } => halves_part(v.m()) + idx_part::<T>(v.m(), 0),
            VecStep::Index { i, v } => idx_part::<T>(v.m(), i as int),
            VecStep::ShrinkAt { i, src, v } => {
                if (i as int) < v.m().len() {
                    src.model().map_values(|sm: T::M| v.m().update(i as int, sm)) + idx_part::<T>(
                        v.m(),
                        i as int + 1,
                    )
                } else {
                    Seq::empty()
                }
            },
        }
    }

    open spec fn size(self) -> nat {
        match self {
            VecStep::Halves { v } => v@.len() + 3,
            VecStep::Index { i, v } => dist(v@.len() as int, i as int) + 2,
            VecStep::ShrinkAt { i, src, v } => src.size() + dist(v@.len() as int, i as int) + 2,
        }
    }

    proof fn min_size(self) {
    }

    fn run(self) -> (r: (Vec<Vec<T>>, Option<Self>)) {
        match self {
            VecStep::Halves { v } => {
                let mut out: Vec<Vec<T>> = Vec::new();
                if v.len() > 2 {
                    let mid: usize = v.len() / 2;
                    let mut h1: Vec<T> = Vec::new();
                    crate::model::push_dup_range(&mut h1, &v, 0, mid);
                    let mut h2: Vec<T> = Vec::new();
                    crate::model::push_dup_range(&mut h2, &v, mid, v.len());
                    out.push(h1);
                    out.push(h2);
                    proof {
                        assert(v.m().take(v.m().len() as int / 2) =~= seq_m(v@).subrange(
                            0,
                            mid as int,
                        ));
                        assert(v.m().skip(v.m().len() as int / 2) =~= seq_m(v@).subrange(
                            mid as int,
                            v@.len() as int,
                        ));
                        assert(seq_m(out@) =~= halves_part(v.m()));
                    }
                } else {
                    proof {
                        assert(seq_m(out@) =~= halves_part(v.m()));
                    }
                }
                proof {
                    assert(seq_m(out@) + idx_part::<T>(v.m(), 0) =~= halves_part(v.m())
                        + idx_part::<T>(v.m(), 0));
                }
                (out, Option::Some(VecStep::Index { i: 0, v }))
            },
            VecStep::Index { i, v } => {
                if i < v.len() {
                    let mut out: Vec<Vec<T>> = Vec::new();
                    let mut rem: Vec<T> = Vec::new();
                    crate::model::push_dup_range(&mut rem, &v, 0, i);
                    crate::model::push_dup_range(&mut rem, &v, i + 1, v.len());
                    proof {
                        assert(rem.m() =~= v.m().remove(i as int));
                    }
                    out.push(rem);
                    let src = v[i].shrink();
                    proof {
                        assert(v@[i as int].m() == v.m()[i as int]);
                        assert(seq_m(out@) =~= seq![v.m().remove(i as int)]);
                        assert(seq_m(out@) + (src.model().map_values(
                            |sm: T::M| v.m().update(i as int, sm),
                        ) + idx_part::<T>(v.m(), i as int + 1)) =~= idx_part::<T>(
                            v.m(),
                            i as int,
                        ));
                    }
                    (out, Option::Some(VecStep::ShrinkAt { i, src, v }))
                } else {
                    proof {
                        assert(Seq::<Seq<T::M>>::empty() =~= idx_part::<T>(v.m(), i as int));
                    }
                    (Vec::new(), Option::None)
                }
            },
            VecStep::ShrinkAt { i, mut src, v } => {
                if i < v.len() {
                    let ghost src0 = src.model();
                    match src.next() {
                        Option::Some(s) => {
                            let ghost sm0 = s.m();
                            let mut cand: Vec<T> = Vec::new();
                            crate::model::push_dup_range(&mut cand, &v, 0, i);
                            let ghost c1 = seq_m(cand@);
                            cand.push(s);
                            proof {
                                assert(seq_m(cand@) =~= c1 + seq![sm0]);
                            }
                            crate::model::push_dup_range(&mut cand, &v, i + 1, v.len());
                            proof {
                                assert(cand.m() =~= v.m().update(i as int, sm0));
                            }
                            let mut out: Vec<Vec<T>> = Vec::new();
                            out.push(cand);
                            proof {
                                assert(seq_m(out@) + (src.model().map_values(
                                    |sm: T::M| v.m().update(i as int, sm),
                                ) + idx_part::<T>(v.m(), i as int + 1)) =~= src0.map_values(
                                    |sm: T::M| v.m().update(i as int, sm),
                                ) + idx_part::<T>(v.m(), i as int + 1));
                            }
                            (out, Option::Some(VecStep::ShrinkAt { i, src, v }))
                        },
                        Option::None => {
                            proof {
                                assert(Seq::<Seq<T::M>>::empty() + idx_part::<T>(
                                    v.m(),
                                    i as int + 1,
                                ) =~= idx_part::<T>(v.m(), i as int + 1));
                            }
                            (Vec::new(), Option::Some(VecStep::Index { i: i + 1, v }))
                        },
                    }
                } else {
                    (Vec::new(), Option::None)
                }
            },
        }
    }
}

impl<T: Shrink + Dup> Shrink for Vec<T> {
    type St = VecStep<T>;

    open spec fn shrink_model(m: Seq<T::M>) -> Seq<Seq<T::M>> {
        if m.len() == 0 {
            Seq::empty()
        } else {
            seq![Seq::<T::M>::empty()] + halves_part(m) + idx_part::<T>(m, 0)
        }
    }

    fn shrink(&self) -> (l: Lazy<Vec<T>, VecStep<T>>) {
        let mut l = Lazy::new();
        if self.len() > 0 {
            let e: Vec<T> = Vec::new();
            proof {
                assert(e.m() =~= Seq::<T::M>::empty());
            }
            l.push(e);
            l.push_thunk(VecStep::Halves { v: self.dup() });
        }
        proof {
            assert(l.model() =~= Self::shrink_model(self.m()));
        }
        l
    }
}

/// Shrinking a non-empty sequence yields the empty sequence first.
pub proof fn lemma_vec_shrink_first_empty<T: Shrink + Dup>(m: Seq<T::M>)
    requires
        m.len() > 0,
    ensures
        <Vec<T> as Shrink>::shrink_model(m).len() > 0,
        <Vec<T> as Shrink>::shrink_model(m)[0] == Seq::<T::M>::empty(),
{
}

/// After the empty sequence, shrinking a sequence of more than two
/// elements yields its two halves, split at the index midpoint, and their
/// lengths sum to the length of the original.
pub proof fn lemma_vec_shrink_halves<T: Shrink + Dup>(m: Seq<T::M>)
    requires
        m.len() > 2,
    ensures
        <Vec<T> as Shrink>::shrink_model(m).len() >= 3,
        <Vec<T> as Shrink>::shrink_model(m)[1] == m.take(m.len() as int / 2),
        <Vec<T> as Shrink>::shrink_model(m)[2] == m.skip(m.len() as int / 2),
        <Vec<T> as Shrink>::shrink_model(m)[1].len() + <Vec<T> as Shrink>::shrink_model(
            m,
        )[2].len() == m.len(),
{
}

/// Re-wraps every mapped candidate in a fresh single-owner box.
pub struct BoxFn;

impl<T: Model> MapFn<T> for BoxFn {
    type Out = Box<T>;

    open spec fn map_m(&self, a: T::M) -> T::M {
        a
    }

    fn call(&self, a: T) -> (r: Box<T>) {
        Box::new(a)
    }
}

impl<T: Shrink> Shrink for Box<T> {
    type St = MapStep<T, T::St, BoxFn>;

    open spec fn shrink_model(m: T::M) -> Seq<T::M> {
        T::shrink_model(m)
    }

    fn shrink(&self) -> (l: Lazy<Box<T>, MapStep<T, T::St, BoxFn>>) {
        let mut l = Lazy::new();
        l.push_map((**self).shrink(), BoxFn);
        proof {
            assert(l.model() =~= Self::shrink_model(self.m()));
        }
        l
    }
}

/// Re-wraps every mapped candidate in a fresh shared-owner handle.
pub struct RcFn;

impl<T: Model> MapFn<T> for RcFn {
    type Out = std::rc::Rc<T>;

    open spec fn map_m(&self, a: T::M) -> T::M {
        a
    }

    fn call(&self, a: T) -> (r: std::rc::Rc<T>) {
        std::rc::Rc::new(a)
    }
}

impl<T: Shrink> Shrink for std::rc::Rc<T> {
    type St = MapStep<T, T::St, RcFn>;

    open spec fn shrink_model(m: T::M) -> Seq<T::M> {
        T::shrink_model(m)
    }

    fn shrink(&self) -> (l: Lazy<std::rc::Rc<T>, MapStep<T, T::St, RcFn>>) {
        let mut l = Lazy::new();
        l.push_map((**self).shrink(), RcFn);
        proof {
            assert(l.model() =~= Self::shrink_model(self.m()));
        }
        l
    }
}

/// Relies on String::push: appends exactly the given character to the
/// character sequence of the string.
#[verifier::external_body]
fn string_push(s: &mut String, c: char)
    ensures
        final(s)@ == old(s)@.push(c),
{
    s.push(c);
}

/// The characters of a string, as a vector, in order.
pub fn to_char_vec(s: &String) -> (r: Vec<char>)
    ensures
        r@ == s@,
{
    let mut r: Vec<char> = Vec::new();
    let n: usize = s.as_str().unicode_len();
    let mut i: usize = 0;
    while i < n
        invariant
            i <= n,
            n == s@.len(),
            r@ == s@.take(i as int),
        decreases n - i,
    {
        r.push(s.as_str().get_char(i));
        proof {
            assert(r@ =~= s@.take(i + 1));
        }
        i = i + 1;
    }
    proof {
        assert(r@ =~= s@);
    }
    r
}

/// A string assembled from the given characters, in order.
pub fn from_char_vec(v: &Vec<char>) -> (r: String)
    ensures
        r@ == v@,
{
    let mut r = String::new();
    let mut i: usize = 0;
    while i < v.len()
        invariant
            i <= v@.len(),
            r@ == v@.take(i as int),
        decreases v@.len() - i,
    {
        string_push(&mut r, v[i]);
        proof {
            assert(r@ =~= v@.take(i + 1));
        }
        i = i + 1;
    }
    proof {
        assert(r@ =~= v@);
    }
    r
}

/// Reassembles every mapped character-sequence candidate into a string.
pub struct FromCharsFn;

impl MapFn<Vec<char>> for FromCharsFn {
    type Out = String;

    open spec fn map_m(&self, a: Seq<char>) -> Seq<char> {
        a
    }

    fn call(&self, a: Vec<char>) -> (r: String) {
        let r = from_char_vec(&a);
        proof {
            assert(a.m() =~= a@);
        }
        r
    }
}

impl Shrink for String {
    type St = MapStep<Vec<char>, VecStep<char>, FromCharsFn>;

    open spec fn shrink_model(m: Seq<char>) -> Seq<Seq<char>> {
        <Vec<char> as Shrink>::shrink_model(m)
    }

    fn shrink(&self) -> (l: Lazy<String, MapStep<Vec<char>, VecStep<char>, FromCharsFn>>) {
        let mut l = Lazy::new();
        let v = to_char_vec(self);
        proof {
            assert(v.m() =~= self@);
        }
        l.push_map(v.shrink(), FromCharsFn);
        proof {
            assert(l.model() =~= Self::shrink_model(self.m()));
        }
        l
    }
}

/// A key-value map held as a sequence of pairs. Shrinking applies the
/// sequence rule to the pair sequence; reconstructing a keyed container
/// from a candidate, resolving any duplicate keys, is the consumer's
/// concern, as it is when the candidates are consumed one by one.
pub struct MapPairs<K: Shrink + Dup, V: Shrink + Dup> {
    pub pairs: Vec<(K, V)>,
}

impl<K: Shrink + Dup, V: Shrink + Dup> Model for MapPairs<K, V> {
    type M = Seq<(K::M, V::M)>;

    open spec fn m(&self) -> Seq<(K::M, V::M)> {
        self.pairs.m()
    }
}

impl<K: Shrink + Dup, V: Shrink + Dup> Dup for MapPairs<K, V> {
    fn dup(&self) -> (r: MapPairs<K, V>) {
        MapPairs { pairs: self.pairs.dup() }
    }
}

/// Re-wraps every mapped pair-sequence candidate as a map.
pub struct WrapPairsFn;

impl<K: Shrink + Dup, V: Shrink + Dup> MapFn<Vec<(K, V)>> for WrapPairsFn {
    type Out = MapPairs<K, V>;

    open spec fn map_m(&self, a: Seq<(K::M, V::M)>) -> Seq<(K::M, V::M)> {
        a
    }

    fn call(&self, a: Vec<(K, V)>) -> (r: MapPairs<K, V>) {
        MapPairs { pairs: a }
    }
}

impl<K: Shrink + Dup, V: Shrink + Dup> Shrink for MapPairs<K, V> {
    type St = MapStep<Vec<(K, V)>, VecStep<(K, V)>, WrapPairsFn>;

    open spec fn shrink_model(m: Seq<(K::M, V::M)>) -> Seq<Seq<(K::M, V::M)>> {
        <Vec<(K, V)> as Shrink>::shrink_model(m)
    }

    fn shrink(&self) -> (l: Lazy<
        MapPairs<K, V>,
        MapStep<Vec<(K, V)>, VecStep<(K, V)>, WrapPairsFn>,
    >) {
        let mut l = Lazy::new();
        let v = self.pairs.dup();
        l.push_map(v.shrink(), WrapPairsFn);
        proof {
            assert(l.model() =~= Self::shrink_model(self.m()));
        }
        l
    }
}

} // verus!
