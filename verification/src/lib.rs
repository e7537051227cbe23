//! A one-shot deferred value: a computation wrapped so that it runs only when
//! the value is demanded, and can be demanded at most once.

use vstd::prelude::*;

verus! {

use core::marker::PhantomData;
use vstd::std_specs::iter::IteratorSpec;

/// A deferred value: an owned, parameterless computation that produces a `T`
/// when forced.  Forcing consumes the `Thunk`, so the computation runs at
/// most once.
///
/// `F` is the type of the wrapped computation.  The constructors that do not
/// take a computation (`new_const`, `from`) live on `Thunk<T, ()>`, whose
/// second parameter is arbitrary, so that they can be called without naming
/// a closure type.
#[verifier::reject_recursive_types(T)]
pub struct Thunk<T, F> {
    body: F,
    produces: PhantomData<T>,
}

impl<T, F> Thunk<T, F> where F: FnOnce() -> T {
    /// The wrapped computation may be invoked: its precondition holds.
    pub closed spec fn wf(self) -> bool {
        call_requires(self.body, ())
    }

    /// The values the wrapped computation may produce when forced.
    pub closed spec fn post(self, r: T) -> bool {
        call_ensures(self.body, (), r)
    }

    /// Wrap a parameterless computation; the computation is not invoked here.
    pub fn new(body: F) -> (t: Thunk<T, F>)
        ensures
            t.wf() == call_requires(body, ()),
            forall|r: T| t.post(r) == call_ensures(body, (), r),
    {
        Thunk { body, produces: PhantomData }
    }

    /// Compose a transformation over the evaluated value: forcing the result
    /// first forces `self`, then applies `transform` to the produced value.
    /// Nothing is evaluated here; failure of `self` propagates at force time.
    pub fn map<U, G>(self, transform: G) -> (t: Thunk<U, impl FnOnce() -> U>) where
        G: FnOnce(T) -> U,
        ensures
            self.wf() && (forall|x: T| self.post(x) ==> call_requires(transform, (x,)))
                ==> t.wf(),
            forall|r: U|
                t.post(r) ==> exists|x: T| self.post(x) && call_ensures(transform, (x,), r),
    {
        let Thunk { body, produces: _ } = self;
        proof {
            assert(forall|x: T| #[trigger] call_ensures(body, (), x) <==> self.post(x));
        }
        let clo = (move || -> (r: U)
            requires
                call_requires(body, ()),
                forall|x: T| call_ensures(body, (), x) ==> call_requires(transform, (x,)),
            ensures
                exists|x: T| call_ensures(body, (), x) && call_ensures(transform, (x,), r),
            {
                transform(body())
            });
        Thunk::new(clo)
    }

    /// Compose a transformation over the deferred value itself: forcing the
    /// result hands the still-unevaluated `self` to `transform`, which may
    /// force it or discard it.  Nothing is evaluated here; a predecessor that
    /// would fail when forced is never forced unless `transform` forces it.
    pub fn map_lazy<U, G>(self, transform: G) -> (t: Thunk<U, impl FnOnce() -> U>) where
        G: FnOnce(Thunk<T, F>) -> U,
        ensures
            call_requires(transform, (self,)) ==> t.wf(),
            forall|r: U| t.post(r) ==> call_ensures(transform, (self,), r),
    {
        let clo = (move || -> (r: U)
            requires
                call_requires(transform, (self,)),
            ensures
                call_ensures(transform, (self,), r),
            {
                transform(self)
            });
        Thunk::new(clo)
    }

    /// Force the deferred value: invoke the wrapped computation once and
    /// return its result, consuming the `Thunk`.
    pub fn unwrap(self) -> (r: T)
        requires
            self.wf(),
        ensures
            self.post(r),
    {
        (self.body)()
    }

    /// Convert into a one-shot sequence of exactly one logical element: the
    /// first pull forces the deferred value and yields its result; every
    /// later pull reports exhaustion, permanently.
    pub fn into_iter(self) -> (it: IntoIter<T, F>)
        ensures
            it.pending() == Some(self),
    {
        IntoIter { inner: Some(self) }
    }

    /// Rebuild a deferred value from the head of a one-shot sequence:
    /// forcing the result pulls the sequence once and returns what it
    /// yielded.  Forcing fails abruptly if the sequence is exhausted, but
    /// construction itself never fails.
    pub fn from_head(seq_head: IntoIter<T, F>) -> (t: Thunk<T, impl FnOnce() -> T>)
        ensures
            (seq_head.pending() matches Some(p) && p.wf()) ==> t.wf(),
            forall|r: T| t.post(r) ==> (seq_head.pending() matches Some(p) && p.post(r)),
    {
        let clo = (move || -> (r: T)
            requires
                seq_head.pending() matches Some(p) && p.wf(),
            ensures
                seq_head.pending() matches Some(p) && p.post(r),
            {
                let mut it = seq_head;
                it.next().unwrap()
            });
        Thunk::new(clo)
    }
}

impl<T> Thunk<T, ()> {
    /// Wrap an already-computed value: forcing the result yields exactly that
    /// value.  Equivalent to wrapping a computation that returns `value`.
    pub fn new_const(value: T) -> (t: Thunk<T, impl FnOnce() -> T>)
        ensures
            t.wf(),
            forall|r: T| t.post(r) ==> r == value,
    {
        Thunk::new(
            (move || -> (r: T)
                ensures
                    r == value,
                { value }),
        )
    }

    /// Wrap the head of a sequence: forcing the result pulls exactly one
    /// element from `iter` and returns it; the rest of the sequence is never
    /// consumed.  Construction never fails, even on an empty sequence; only
    /// forcing a `Thunk` built from an empty sequence does.
    pub fn from<I>(iter: I) -> (t: Thunk<T, impl FnOnce() -> T>) where
        I: Iterator<Item = T>,
        ensures
            iter.obeys_prophetic_iter_laws() && iter.remaining().len() > 0 ==> t.wf(),
            iter.obeys_prophetic_iter_laws() ==> forall|r: T|
                t.post(r) ==> r == iter.remaining()[0],
    {
        let clo = (move || -> (r: T)
            requires
                iter.obeys_prophetic_iter_laws(),
                iter.remaining().len() > 0,
            ensures
                r == iter.remaining()[0],
            {
                let mut it = iter;
                it.next().unwrap()
            });
        Thunk::new(clo)
    }
}

/// A one-shot sequence over a single deferred value: it yields the forced
/// value of the `Thunk` it holds exactly once, then permanently reports
/// exhaustion.
#[verifier::reject_recursive_types(T)]
pub struct IntoIter<T, F> {
    inner: Option<Thunk<T, F>>,
}

impl<T, F> IntoIter<T, F> where F: FnOnce() -> T {
    /// The deferred value not yet consumed, if any.
    pub closed spec fn pending(self) -> Option<Thunk<T, F>> {
        self.inner
    }

    /// Pull once: the first pull forces the held deferred value and yields
    /// its result; every later pull yields nothing, permanently.
    pub fn next(&mut self) -> (r: Option<T>)
        requires
            old(self).pending() matches Some(t) ==> t.wf(),
        ensures
            final(self).pending() is None,
            match old(self).pending() {
                Some(t) => r matches Some(v) && t.post(v),
                None => r is None,
            },
    {
        if let Some(thunk) = self.inner.take() {
            Some(thunk.unwrap())
        } else {
            None
        }
    }
}

/// Forcing a deferred value built from an already-computed value yields
/// exactly that value: from what `new_const` ensures of `t` and what
/// `unwrap` ensures of its result `r`, it follows that `r == v`.
pub proof fn lemma_const_then_force<T, F: FnOnce() -> T>(t: Thunk<T, F>, v: T, r: T)
    requires
        forall|x: T| t.post(x) ==> x == v,
        t.post(r),
    ensures
        r == v,
{
}

/// `map` does not alter the forced value, it only composes: if the source
/// `d` forces deterministically to `x0`, and `transform` is pure on `x0`
/// (yields exactly `y0`), then the mapped value `t` forces to `y0`, which
/// is `transform` applied to what `d` would have produced.
pub proof fn lemma_map_preserves_value<T, U, F: FnOnce() -> T, G: FnOnce(T) -> U, H: FnOnce() -> U>(
    d: Thunk<T, F>,
    transform: G,
    t: Thunk<U, H>,
    x0: T,
    y0: U,
    r: U,
)
    requires
        // what `map` ensures of its result
        forall|y: U| t.post(y) ==> exists|x: T| d.post(x) && call_ensures(transform, (x,), y),
        // the source forces deterministically to `x0`
        forall|x: T| d.post(x) ==> x == x0,
        // `transform` is pure at `x0`: it yields exactly `y0` there
        forall|y: U| call_ensures(transform, (x0,), y) ==> y == y0,
        // what `unwrap` ensures of the mapped value's forced result
        t.post(r),
    ensures
        r == y0,
{
}

/// A `map_lazy` whose transform accepts every argument yields a deferred
/// value that is safe to force, whatever the predecessor `d` is: the
/// predecessor's own failure is never triggered unless the transform
/// forces it.  Note that nothing here asks `d.wf()`.
pub proof fn lemma_map_lazy_skips_predecessor<
    T,
    U,
    F: FnOnce() -> T,
    G: FnOnce(Thunk<T, F>) -> U,
    H: FnOnce() -> U,
>(d: Thunk<T, F>, transform: G, t: Thunk<U, H>)
    requires
        // the transform may be invoked on any deferred value at all
        forall|a: Thunk<T, F>| call_requires(transform, (a,)),
        // what `map_lazy` ensures of its result
        call_requires(transform, (d,)) ==> t.wf(),
    ensures
        t.wf(),
{
}

/// Round trip through the sequence bridge: converting a deferred value for
/// `x` into a sequence and rebuilding a deferred value from that sequence's
/// head is behavior-preserving: forcing the rebuilt value yields `x`.
pub proof fn lemma_round_trip<T, F: FnOnce() -> T, H: FnOnce() -> T>(
    c: Thunk<T, F>,
    it: IntoIter<T, F>,
    t: Thunk<T, H>,
    x: T,
    r: T,
)
    requires
        // what `new_const` ensures of `c`
        forall|v: T| c.post(v) ==> v == x,
        // what `into_iter` ensures of `it`
        it.pending() == Some(c),
        // what `from_head` ensures of `t`
        forall|v: T| t.post(v) ==> (it.pending() matches Some(p) && p.post(v)),
        // what `unwrap` ensures of the forced result
        t.post(r),
    ensures
        r == x,
{
}

/// Chaining `map` three times with pure transforms `a`, `b`, `c` is
/// equivalent to a single `map` with their composition: both forced
/// results equal `c(b(a(x0)))`, where `x0` is what the source forces to.
/// `t1`, `t2`, `t3` are the successive maps of `d` by `a`, `b`, `c`;
/// `ts` is the single map of `d` by the composed transform.
pub proof fn lemma_map_composes<
    T,
    U,
    V,
    W,
    FD: FnOnce() -> T,
    FA: FnOnce(T) -> U,
    FB: FnOnce(U) -> V,
    FC: FnOnce(V) -> W,
    F1: FnOnce() -> U,
    F2: FnOnce() -> V,
    F3: FnOnce() -> W,
    FS: FnOnce() -> W,
>(
    d: Thunk<T, FD>,
    a: FA,
    b: FB,
    c: FC,
    t1: Thunk<U, F1>,
    t2: Thunk<V, F2>,
    t3: Thunk<W, F3>,
    ts: Thunk<W, FS>,
    x0: T,
    x1: U,
    x2: V,
    x3: W,
    r3: W,
    rs: W,
)
    requires
        // the source and the three transforms are pure along the chain
        forall|x: T| d.post(x) ==> x == x0,
        forall|y: U| call_ensures(a, (x0,), y) ==> y == x1,
        forall|y: V| call_ensures(b, (x1,), y) ==> y == x2,
        forall|y: W| call_ensures(c, (x2,), y) ==> y == x3,
        // what each of the three successive `map` calls ensures
        forall|y: U| t1.post(y) ==> exists|x: T| d.post(x) && call_ensures(a, (x,), y),
        forall|y: V| t2.post(y) ==> exists|x: U| t1.post(x) && call_ensures(b, (x,), y),
        forall|y: W| t3.post(y) ==> exists|x: V| t2.post(x) && call_ensures(c, (x,), y),
        // what the single `map` by the composed transform ensures: its
        // forced value comes from one chained pass through `a`, `b`, `c`
        forall|y: W|
            ts.post(y) ==> exists|x: T, u: U, v: V|
                d.post(x) && call_ensures(a, (x,), u) && call_ensures(b, (u,), v)
                    && call_ensures(c, (v,), y),
        // what `unwrap` ensures of each forced result
        t3.post(r3),
        ts.post(rs),
    ensures
        r3 == rs,
        r3 == x3,
{
}

} // verus!
