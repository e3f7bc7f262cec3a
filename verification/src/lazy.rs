use vstd::prelude::*;
use crate::model::Dup;
use crate::model::Model;
use crate::model::seq_m;

verus! {

/// One deferred unit of work inside a lazy sequence. Running a step yields
/// the next piece of the sequence: some realized values together with at
/// most one nested step for the remainder. A step owns its captured state
/// and is consumed by running it, so it can run at most once.
pub trait Step<T: Model>: Sized {
    /// The models of every value this step will eventually contribute,
    /// in the order they will appear.
    spec fn future(self) -> Seq<T::M>;

    /// A termination measure: whenever running a step realizes no value,
    /// the nested step it leaves behind must be strictly smaller.
    spec fn size(self) -> nat;

    /// Every step weighs at least one unit.
    proof fn min_size(self)
        ensures
            self.size() >= 1,
    ;

    /// Resolve this step once, producing the values it realizes now and
    /// the nested step, if any, that stands for the rest of its output.
    fn run(self) -> (r: (Vec<T>, Option<Self>))
        ensures
            (match r.1 {
                Option::Some(s2) => {
                    &&& seq_m(r.0@) + s2.future() == self.future()
                    &&& (r.0@.len() == 0 ==> s2.size() < self.size())
                },
                Option::None => seq_m(r.0@) == self.future(),
            }),
    ;
}

/// The combined future contribution of a queue of steps, in queue order.
pub open spec fn steps_future<T: Model, S: Step<T>>(ss: Seq<S>) -> Seq<T::M>
    decreases ss.len(),
{
    if ss.len() == 0 {
        Seq::empty()
    } else {
        ss[0].future() + steps_future(ss.drop_first())
    }
}

/// The combined size of a queue of steps.
pub open spec fn steps_size<T: Model, S: Step<T>>(ss: Seq<S>) -> nat
    decreases ss.len(),
{
    if ss.len() == 0 {
        0
    } else {
        ss[0].size() + steps_size::<T, S>(ss.drop_first())
    }
}

pub proof fn lemma_steps_future_concat<T: Model, S: Step<T>>(a: Seq<S>, b: Seq<S>)
    ensures
        steps_future::<T, S>(a + b) == steps_future::<T, S>(a) + steps_future::<T, S>(b),
    decreases a.len(),
{
    if a.len() == 0 {
        assert(a + b =~= b);
        assert(steps_future::<T, S>(a) + steps_future::<T, S>(b) =~= steps_future::<T, S>(b));
    } else {
        assert((a + b).drop_first() =~= a.drop_first() + b);
        lemma_steps_future_concat::<T, S>(a.drop_first(), b);
        assert(steps_future::<T, S>(a + b) =~= steps_future::<T, S>(a) + steps_future::<T, S>(
            b,
        ));
    }
}

pub proof fn lemma_steps_single<T: Model, S: Step<T>>(s: S)
    ensures
        steps_future::<T, S>(seq![s]) == s.future(),
        steps_size::<T, S>(seq![s]) == s.size(),
{
    assert(seq![s].drop_first() =~= Seq::<S>::empty());
    assert(steps_future::<T, S>(Seq::<S>::empty()) =~= Seq::<T::M>::empty());
    assert(steps_size::<T, S>(Seq::<S>::empty()) == 0);
    assert(steps_future::<T, S>(seq![s]) =~= s.future());
}

pub proof fn lemma_steps_size_concat<T: Model, S: Step<T>>(a: Seq<S>, b: Seq<S>)
    ensures
        steps_size::<T, S>(a + b) == steps_size::<T, S>(a) + steps_size::<T, S>(b),
    decreases a.len(),
{
    if a.len() == 0 {
        assert(a + b =~= b);
    } else {
        assert((a + b).drop_first() =~= a.drop_first() + b);
        lemma_steps_size_concat::<T, S>(a.drop_first(), b);
    }
}

/// A lazily generated sequence, traversable once. Values are realized into
/// a front buffer; later elements live behind a queue of deferred steps
/// that are resolved only when traversal reaches them.
pub struct Lazy<T: Model, S: Step<T>> {
    head: Vec<T>,
    thunks: Vec<S>,
}

impl<T: Model, S: Step<T>> Lazy<T, S> {
    /// The models of the already-realized values, in order.
    pub closed spec fn vals(self) -> Seq<T::M> {
        seq_m(self.head@)
    }

    /// The models of the values the pending steps will contribute, in order.
    pub closed spec fn pending(self) -> Seq<T::M> {
        steps_future(self.thunks@)
    }

    /// Everything this sequence will yield from here on, as models.
    pub open spec fn model(self) -> Seq<T::M> {
        self.vals() + self.pending()
    }

    /// Termination measure: realized values plus the sizes of pending steps.
    pub closed spec fn size(self) -> nat {
        self.head@.len() + steps_size(self.thunks@)
    }

    /// A sequence with no realized values and no pending steps.
    pub fn new() -> (l: Lazy<T, S>)
        ensures
            l.vals() == Seq::<T::M>::empty(),
            l.pending() == Seq::<T::M>::empty(),
            l.size() == 0,
    {
        Lazy { head: Vec::new(), thunks: Vec::new() }
    }

    /// A sequence whose values are all realized up front, in the given order.
    pub fn new_from(v: Vec<T>) -> (l: Lazy<T, S>)
        ensures
            l.vals() == seq_m(v@),
            l.pending() == Seq::<T::M>::empty(),
            l.size() == v@.len(),
    {
        Lazy { head: v, thunks: Vec::new() }
    }

    /// A sequence holding nothing but one deferred step.
    pub fn create(s: S) -> (l: Lazy<T, S>)
        ensures
            l.vals() == Seq::<T::M>::empty(),
            l.pending() == s.future(),
            l.model() == s.future(),
            l.size() == s.size(),
    {
        let mut l = Lazy::new();
        l.push_thunk(s);
        l
    }

    /// Append a realized value. It will be yielded after the values already
    /// realized and before everything the pending steps contribute.
    pub fn push(&mut self, x: T)
        ensures
            final(self).vals() == old(self).vals().push(x.m()),
            final(self).pending() == old(self).pending(),
            final(self).size() == old(self).size() + 1,
    {
        self.head.push(x);
        proof {
            assert(self.vals() =~= old(self).vals().push(x.m()));
        }
    }

    /// Append a deferred step, ordered after every pending step and after
    /// all realized values.
    pub fn push_thunk(&mut self, s: S)
        ensures
            final(self).vals() == old(self).vals(),
            final(self).pending() == old(self).pending() + s.future(),
            final(self).size() == old(self).size() + s.size(),
    {
        self.thunks.push(s);
        proof {
            assert(self.thunks@ =~= old(self).thunks@ + seq![s]);
            lemma_steps_future_concat::<T, S>(old(self).thunks@, seq![s]);
            lemma_steps_size_concat::<T, S>(old(self).thunks@, seq![s]);
            lemma_steps_single::<T, S>(s);
            assert(self.pending() =~= old(self).pending() + s.future());
        }
    }

    /// Remove and return the next value. Resolves as many deferred steps
    /// as needed to realize one value; on an exhausted sequence there is
    /// nothing to resolve and no value to return.
    pub fn next(&mut self) -> (r: Option<T>)
        ensures
            match r {
                Option::Some(x) => {
                    &&& old(self).model().len() > 0
                    &&& x.m() == old(self).model()[0]
                    &&& final(self).model() == old(self).model().drop_first()
                },
                Option::None => {
                    &&& old(self).model() == Seq::<T::M>::empty()
                    &&& final(self).model() == Seq::<T::M>::empty()
                    &&& final(self).size() <= old(self).size()
                },
            },
    {
        while self.head.len() == 0 && self.thunks.len() > 0
            invariant
                self.model() == old(self).model(),
                self.vals().len() == 0 ==> self.size() <= old(self).size(),
            decreases (if self.vals().len() == 0 {
                1int
            } else {
                0int
            }), self.size(),
        {
            let ghost pre = *self;
            let t = self.thunks.remove(0);
            let ghost rest = self.thunks@;
            proof {
                assert(pre.thunks@ =~= seq![t] + rest);
                lemma_steps_future_concat::<T, S>(seq![t], rest);
                lemma_steps_size_concat::<T, S>(seq![t], rest);
                lemma_steps_single::<T, S>(t);
                t.min_size();
            }
            let (vals, nxt) = t.run();
            self.head = vals;
            match nxt {
                Option::Some(s2) => {
                    self.thunks.insert(0, s2);
                    proof {
                        assert(self.thunks@ =~= seq![s2] + rest);
                        lemma_steps_future_concat::<T, S>(seq![s2], rest);
                        lemma_steps_size_concat::<T, S>(seq![s2], rest);
                        lemma_steps_single::<T, S>(s2);
                        assert(self.model() =~= pre.model());
                    }
                },
                Option::None => {
                    proof {
                        assert(self.model() =~= pre.model());
                    }
                },
            }
        }
        if self.head.len() > 0 {
            let ghost cur = *self;
            let x = self.head.remove(0);
            proof {
                assert(cur.model()[0] == x.m());
                assert(self.vals() =~= cur.vals().drop_first());
                assert(self.model() =~= cur.model().drop_first());
            }
            Option::Some(x)
        } else {
            proof {
                assert(self.model() =~= Seq::<T::M>::empty());
            }
            Option::None
        }
    }
}

/// The step that realizes nothing: a lazy sequence built only from it is
/// already exhausted. It backs the strategies of values that offer no
/// simpler candidates.
pub struct NullStep;

impl<T: Model> Step<T> for NullStep {
    open spec fn future(self) -> Seq<T::M> {
        Seq::empty()
    }

    open spec fn size(self) -> nat {
        1
    }

    proof fn min_size(self) {
    }

    fn run(self) -> (r: (Vec<T>, Option<Self>)) {
        (Vec::new(), Option::None)
    }
}

/// A step that realizes an owned list of values one at a time, deferring
/// the remainder behind a nested step of the same shape.
pub struct EmitStep<T: Model> {
    pub values: Vec<T>,
}

impl<T: Model> Step<T> for EmitStep<T> {
    open spec fn future(self) -> Seq<T::M> {
        seq_m(self.values@)
    }

    open spec fn size(self) -> nat {
        self.values@.len() + 1
    }

    proof fn min_size(self) {
    }

    fn run(self) -> (r: (Vec<T>, Option<Self>)) {
        let EmitStep { mut values } = self;
        let ghost all = seq_m(values@);
        if values.len() > 0 {
            let x = values.remove(0);
            let mut out: Vec<T> = Vec::new();
            out.push(x);
            proof {
                assert(seq_m(out@) + seq_m(values@) =~= all);
            }
            (out, Option::Some(EmitStep { values }))
        } else {
            let out: Vec<T> = Vec::new();
            proof {
                assert(seq_m(out@) =~= all);
            }
            (out, Option::None)
        }
    }
}

/// A mapping with a verified contract: applied to a value of type `A`, it
/// returns a value whose model is `map_m` of the argument's model.
pub trait MapFn<A: Model>: Sized {
    /// The type the mapping produces.
    type Out: Model;

    /// What the mapping does, on models.
    spec fn map_m(&self, a: A::M) -> <Self::Out as Model>::M;

    /// Apply the mapping to one value.
    fn call(&self, a: A) -> (r: Self::Out)
        ensures
            r.m() == self.map_m(a.m()),
    ;
}

/// The step behind `push_map`: it draws one value at a time from a source
/// sequence, realizes its image under the mapping, and defers the rest.
pub struct MapStep<A: Model, SA: Step<A>, F: MapFn<A>> {
    pub src: Lazy<A, SA>,
    pub f: F,
}

impl<A: Model, SA: Step<A>, F: MapFn<A>> Step<F::Out> for MapStep<A, SA, F> {
    open spec fn future(self) -> Seq<<F::Out as Model>::M> {
        self.src.model().map_values(|am: A::M| self.f.map_m(am))
    }

    open spec fn size(self) -> nat {
        self.src.size() + 1
    }

    proof fn min_size(self) {
    }

    fn run(self) -> (r: (Vec<F::Out>, Option<Self>)) {
        let MapStep { mut src, f } = self;
        let ghost src0 = src.model();
        match src.next() {
            Option::Some(x) => {
                let y = f.call(x);
                let mut out: Vec<F::Out> = Vec::new();
                out.push(y);
                proof {
                    assert(seq_m(out@) + src.model().map_values(|am: A::M| f.map_m(am))
                        =~= src0.map_values(|am: A::M| f.map_m(am)));
                }
                (out, Option::Some(MapStep { src, f }))
            },
            Option::None => {
                proof {
                    assert(Seq::<<F::Out as Model>::M>::empty() =~= src0.map_values(
                        |am: A::M| f.map_m(am),
                    ));
                }
                (Vec::new(), Option::None)
            },
        }
    }
}

/// A mapping that threads a mutable environment value through every
/// application, in source order.
pub trait MapEnvFn<A: Model, E: Model>: Sized {
    /// The type the mapping produces.
    type Out: Model;

    /// What the mapping returns, on models, given the current environment.
    spec fn map_m(&self, a: A::M, e: E::M) -> <Self::Out as Model>::M;

    /// What the environment becomes after one application.
    spec fn env_m(&self, a: A::M, e: E::M) -> E::M;

    /// Apply the mapping to one value, updating the environment.
    fn call(&self, a: A, env: &mut E) -> (r: Self::Out)
        ensures
            r.m() == self.map_m(a.m(), old(env).m()),
            final(env).m() == self.env_m(a.m(), old(env).m()),
    ;
}

/// The images of a source sequence under an environment-threading mapping,
/// starting from the given environment.
pub open spec fn env_future<A: Model, E: Model, F: MapEnvFn<A, E>>(
    s: Seq<A::M>,
    e: E::M,
    f: F,
) -> Seq<<F::Out as Model>::M>
    decreases s.len(),
{
    if s.len() == 0 {
        Seq::empty()
    } else {
        seq![f.map_m(s[0], e)] + env_future::<A, E, F>(s.drop_first(), f.env_m(s[0], e), f)
    }
}

/// The step behind `push_map_env`: like `MapStep`, but each deferred
/// continuation also owns the environment left by the previous application.
pub struct MapEnvStep<A: Model, SA: Step<A>, E: Model, F: MapEnvFn<A, E>> {
    pub src: Lazy<A, SA>,
    pub env: E,
    pub f: F,
}

impl<A: Model, SA: Step<A>, E: Model, F: MapEnvFn<A, E>> Step<F::Out> for MapEnvStep<
    A,
    SA,
    E,
    F,
> {
    open spec fn future(self) -> Seq<<F::Out as Model>::M> {
        env_future::<A, E, F>(self.src.model(), self.env.m(), self.f)
    }

    open spec fn size(self) -> nat {
        self.src.size() + 1
    }

    proof fn min_size(self) {
    }

    fn run(self) -> (r: (Vec<F::Out>, Option<Self>)) {
        let MapEnvStep { mut src, mut env, f } = self;
        let ghost src0 = src.model();
        let ghost e0 = env.m();
        match src.next() {
            Option::Some(x) => {
                let y = f.call(x, &mut env);
                let mut out: Vec<F::Out> = Vec::new();
                out.push(y);
                proof {
                    assert(seq_m(out@) + env_future::<A, E, F>(src.model(), env.m(), f)
                        =~= env_future::<A, E, F>(src0, e0, f));
                }
                (out, Option::Some(MapEnvStep { src, env, f }))
            },
            Option::None => {
                (Vec::new(), Option::None)
            },
        }
    }
}

impl<A: Model, SA: Step<A>, F: MapFn<A>> Lazy<F::Out, MapStep<A, SA, F>> {
    /// Lazily append the image of a source sequence under a mapping: each
    /// traversal step realizes exactly one mapped value, so the source is
    /// never drawn from further than traversal demands.
    pub fn push_map(&mut self, it: Lazy<A, SA>, f: F)
        ensures
            final(self).vals() == old(self).vals(),
            final(self).pending() == old(self).pending() + it.model().map_values(
                |am: A::M| f.map_m(am),
            ),
    {
        self.push_thunk(MapStep { src: it, f });
    }
}

impl<A: Model, SA: Step<A>, E: Model, F: MapEnvFn<A, E>> Lazy<F::Out, MapEnvStep<A, SA, E, F>> {
    /// Lazily append the image of a source sequence under a mapping that
    /// threads an owned environment value through every application.
    pub fn push_map_env(&mut self, it: Lazy<A, SA>, env: E, f: F)
        ensures
            final(self).vals() == old(self).vals(),
            final(self).pending() == old(self).pending() + env_future::<A, E, F>(
                it.model(),
                env.m(),
                f,
            ),
    {
        self.push_thunk(MapEnvStep { src: it, env, f });
    }
}

/// Pairs every mapped value with a duplicate of a fixed companion value.
pub struct PairWith<B: Dup> {
    pub with: B,
}

impl<A: Model, B: Dup> MapFn<A> for PairWith<B> {
    type Out = (A, B);

    open spec fn map_m(&self, a: A::M) -> (A::M, B::M) {
        (a, self.with.m())
    }

    fn call(&self, a: A) -> (r: (A, B)) {
        (a, self.with.dup())
    }
}

/// Pairs every mapped value with a duplicate of the threaded environment,
/// leaving the environment unchanged.
pub struct PairWithEnv;

impl<A: Model, E: Dup> MapEnvFn<A, E> for PairWithEnv {
    type Out = (A, E);

    open spec fn map_m(&self, a: A::M, e: E::M) -> (A::M, E::M) {
        (a, e)
    }

    open spec fn env_m(&self, a: A::M, e: E::M) -> E::M {
        e
    }

    fn call(&self, a: A, env: &mut E) -> (r: (A, E)) {
        let d = env.dup();
        (a, d)
    }
}

} // verus!
