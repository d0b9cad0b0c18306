//! The cell that holds an asset in its two phases: the raw value, which
//! needs no context, and the bound value built from it with a context.

use vstd::prelude::*;

verus! {

/// What became of a request for the bound value of a [`GgezStorage`].
pub enum InitOutcome<'a, T, E> {
    /// The bound value was current: nothing was built.
    Cached(&'a T),
    /// The value was bound just now from the current raw value.
    Bound(&'a T),
    /// Binding failed; the value bound before is still served. The error is
    /// handed back so that it can be reported.
    Fallback(&'a T, E),
    /// Binding failed and no value had been bound before.
    Failed(E),
}

impl<'a, T, E> InitOutcome<'a, T, E> {
    /// The value served, if any.
    pub open spec fn spec_value(self) -> Option<T> {
        match self {
            InitOutcome::Cached(v) => Some(*v),
            InitOutcome::Bound(v) => Some(*v),
            InitOutcome::Fallback(v, _) => Some(*v),
            InitOutcome::Failed(_) => None,
        }
    }

    /// The binding error carried, if any.
    pub open spec fn spec_error(self) -> Option<E> {
        match self {
            InitOutcome::Fallback(_, e) => Some(e),
            InitOutcome::Failed(e) => Some(e),
            _ => None,
        }
    }

    /// The value served, or the error when there is none.
    pub fn into_result(self) -> (r: Result<&'a T, E>)
        ensures
            match self {
                InitOutcome::Failed(e) => r == Err::<&'a T, E>(e),
                _ => r is Ok && Some(*r->Ok_0) == self.spec_value(),
            },
    {
        match self {
            InitOutcome::Cached(v) => Ok(v),
            InitOutcome::Bound(v) => Ok(v),
            InitOutcome::Fallback(v, _) => Ok(v),
            InitOutcome::Failed(e) => Err(e),
        }
    }
}

/// Stores an asset that needs a context to be complete.
///
/// The raw value comes with a generation, a token that changes each time the
/// raw value is reloaded. The bound value is stored with the generation of
/// the raw value it was built from; when the two differ, the bound value is
/// stale and the next watched access builds it again.
pub struct GgezStorage<R, T> {
    /// The raw value, which needs no context.
    pub raw: R,
    /// The generation of `raw`.
    pub generation: u64,
    /// The bound value, with the generation it was built from.
    pub bound: Option<(T, u64)>,
}

impl<R, T> GgezStorage<R, T> {
    /// The bound value, current or stale.
    pub open spec fn spec_get(&self) -> Option<T> {
        match self.bound {
            Some((v, _)) => Some(v),
            None => None,
        }
    }

    /// A watched access must bind: nothing was bound yet, or the raw value
    /// was reloaded since.
    pub open spec fn spec_needs_bind(&self) -> bool {
        match self.bound {
            Some((_, g)) => g != self.generation,
            None => true,
        }
    }

    /// The storage after binding succeeded with `value`.
    pub open spec fn bound_with(self, value: T) -> Self {
        GgezStorage { bound: Some((value, self.generation)), ..self }
    }

    /// The storage after its raw value was reloaded.
    pub open spec fn reloaded_with(self, raw: R, generation: u64) -> Self {
        GgezStorage { raw, generation, ..self }
    }

    /// Creates a new storage that holds only a raw value.
    pub fn new(raw: R, generation: u64) -> (r: Self)
        ensures
            r.raw == raw,
            r.generation == generation,
            r.bound is None,
    {
        GgezStorage { raw, generation, bound: None }
    }

    /// Gets the bound value if there is one, without building it.
    pub fn get(&self) -> (r: Option<&T>)
        ensures
            r is Some <==> self.spec_get() is Some,
            r is Some ==> *r->0 == self.spec_get()->0,
    {
        match &self.bound {
            Some((v, _)) => Some(v),
            None => None,
        }
    }

    /// Whether a watched access would bind.
    pub fn needs_bind(&self) -> (r: bool)
        ensures
            r == self.spec_needs_bind(),
    {
        match &self.bound {
            Some((_, g)) => *g != self.generation,
            None => true,
        }
    }

    /// Replaces the raw value after its source changed. The bound value is
    /// kept, to be served should the next binding fail.
    pub fn reload(&mut self, raw: R, generation: u64)
        ensures
            *final(self) == old(self).reloaded_with(raw, generation),
    {
        self.raw = raw;
        self.generation = generation;
    }

    /// Takes note of whether the raw value changed since the last access.
    /// When it did, `raw` becomes the raw value under a new generation that
    /// differs from the old one and from the one the bound value was built
    /// from, so the next watched access binds again; the bound value is
    /// kept. When it did not, nothing changes.
    pub fn observe_reload(&mut self, changed: bool, raw: R)
        ensures
            !changed ==> *final(self) == *old(self),
            changed ==> {
                &&& final(self).raw == raw
                &&& final(self).bound == old(self).bound
                &&& final(self).generation != old(self).generation
                &&& final(self).spec_needs_bind()
            },
    {
        if changed {
            let mut g = if self.generation == u64::MAX {
                0
            } else {
                self.generation + 1
            };
            let stale = match &self.bound {
                Some((_, b)) => *b == g,
                None => false,
            };
            if stale {
                g = if g == u64::MAX {
                    0
                } else {
                    g + 1
                };
            }
            self.reload(raw, g);
        }
    }

    /// What an access that called the binding function, and got `res` from
    /// it, leaves in the storage and hands back.
    pub open spec fn after_bind<E>(
        self,
        res: Result<T, E>,
        next: Self,
        out: InitOutcome<T, E>,
    ) -> bool {
        match res {
            Ok(v) => {
                &&& next == self.bound_with(v)
                &&& out is Bound
                &&& out.spec_value() == Some(v)
            },
            Err(e) => {
                &&& next == self
                &&& out.spec_error() == Some(e)
                &&& out.spec_value() == self.spec_get()
                &&& out is Fallback || out is Failed
            },
        }
    }

    /// One watched access, where `res` is what the binding function returns
    /// if it is called: the storage after it, whether the binding function
    /// was called, and the value served.
    pub open spec fn watched_step<E>(self, res: Result<T, E>) -> (Self, bool, Option<T>) {
        if !self.spec_needs_bind() {
            (self, false, self.spec_get())
        } else {
            match res {
                Ok(v) => (self.bound_with(v), true, Some(v)),
                Err(_) => (self, true, self.spec_get()),
            }
        }
    }

    /// One access on the fast path, where `res` is what the binding function
    /// returns if it is called: the storage after it, whether the binding
    /// function was called, and the value served.
    pub open spec fn fast_step<E>(self, res: Result<T, E>) -> (Self, bool, Option<T>) {
        if self.bound is Some {
            (self, false, self.spec_get())
        } else {
            match res {
                Ok(v) => (self.bound_with(v), true, Some(v)),
                Err(_) => (self, true, self.spec_get()),
            }
        }
    }

    /// Watched accesses one after the other, the `i`-th of which gets
    /// `results[i]` from the binding function if it calls it: the storage
    /// after them, how many of them called the binding function, and the
    /// values they served.
    pub open spec fn watched_run<E>(self, results: Seq<Result<T, E>>) -> (Self, nat, Seq<
        Option<T>,
    >)
        decreases results.len(),
    {
        if results.len() == 0 {
            (self, 0, Seq::empty())
        } else {
            let (next, called, served) = self.watched_step(results[0]);
            let (last, binds, rest) = next.watched_run(results.drop_first());
            (last, binds + if called {
                1nat
            } else {
                0nat
            }, seq![served] + rest)
        }
    }

    /// The storage after its raw value was reloaded with each of `reloads`
    /// in turn.
    pub open spec fn reloaded_all(self, reloads: Seq<(R, u64)>) -> Self
        decreases reloads.len(),
    {
        if reloads.len() == 0 {
            self
        } else {
            self.reloaded_with(reloads[0].0, reloads[0].1).reloaded_all(reloads.drop_first())
        }
    }

    /// Runs the binding function on the raw value and stores what it built;
    /// on failure the storage is left as it was.
    fn bind_now<E, F: FnOnce(&R) -> Result<T, E>>(&mut self, bind: F) -> (r: InitOutcome<
        '_,
        T,
        E,
    >)
        requires
            bind.requires((&old(self).raw,)),
            old(self).spec_needs_bind(),
        ensures
            exists|res: Result<T, E>|
                bind.ensures((&old(self).raw,), res) && old(self).after_bind(res, *final(self), r),
            exists|res: Result<T, E>|
                {
                    &&& bind.ensures((&old(self).raw,), res)
                    &&& old(self).watched_step(res).0 == *final(self)
                    &&& old(self).watched_step(res).2 == r.spec_value()
                    &&& old(self).bound is None ==> old(self).fast_step(res).0 == *final(self)
                        && old(self).fast_step(res).2 == r.spec_value()
                },
    {
        let res = bind(&self.raw);
        let ghost res0 = res;
        match res {
            Ok(v) => {
                self.bound = Some((v, self.generation));
                let r = InitOutcome::Bound(&self.bound.as_ref().unwrap().0);
                assert(old(self).after_bind(res0, *self, r));
                assert(old(self).watched_step(res0).0 == *self);
                assert(old(self).bound is None ==> old(self).fast_step(res0).0 == *self);
                r
            },
            Err(e) => {
                let r = match &self.bound {
                    Some((v, _)) => InitOutcome::Fallback(v, e),
                    None => InitOutcome::Failed(e),
                };
                assert(old(self).after_bind(res0, *self, r));
                assert(old(self).watched_step(res0).0 == *self);
                assert(old(self).bound is None ==> old(self).fast_step(res0).0 == *self);
                r
            },
        }
    }

    /// Gets the bound value, building it with `bind` when nothing was bound
    /// yet or the raw value was reloaded since. When binding fails, a value
    /// bound before is still served and the error comes with it.
    pub fn get_or_init<E, F: FnOnce(&R) -> Result<T, E>>(&mut self, bind: F) -> (r: InitOutcome<
        '_,
        T,
        E,
    >)
        requires
            bind.requires((&old(self).raw,)),
        ensures
            !old(self).spec_needs_bind() ==> {
                &&& *final(self) == *old(self)
                &&& r is Cached
                &&& r.spec_value() == old(self).spec_get()
            },
            old(self).spec_needs_bind() ==> exists|res: Result<T, E>|
                bind.ensures((&old(self).raw,), res) && old(self).after_bind(res, *final(self), r),
            exists|res: Result<T, E>|
                {
                    &&& (old(self).spec_needs_bind() ==> bind.ensures((&old(self).raw,), res))
                    &&& old(self).watched_step(res).0 == *final(self)
                    &&& old(self).watched_step(res).2 == r.spec_value()
                },
    {
        if self.needs_bind() {
            self.bind_now(bind)
        } else {
            let r = InitOutcome::Cached(&self.bound.as_ref().unwrap().0);
            proof {
                let res = arbitrary::<Result<T, E>>();
                assert(old(self).watched_step(res).0 == *self);
            }
            r
        }
    }

    /// Gets the bound value without looking at reloads: it is built once,
    /// when nothing was bound yet, and served as it is ever after.
    pub fn get_or_init_fast<E, F: FnOnce(&R) -> Result<T, E>>(&mut self, bind: F) -> (r:
        InitOutcome<'_, T, E>)
        requires
            bind.requires((&old(self).raw,)),
        ensures
            old(self).bound is Some ==> {
                &&& *final(self) == *old(self)
                &&& r is Cached
                &&& r.spec_value() == old(self).spec_get()
            },
            old(self).bound is None ==> exists|res: Result<T, E>|
                bind.ensures((&old(self).raw,), res) && old(self).after_bind(res, *final(self), r),
            exists|res: Result<T, E>|
                {
                    &&& (old(self).bound is None ==> bind.ensures((&old(self).raw,), res))
                    &&& old(self).fast_step(res).0 == *final(self)
                    &&& old(self).fast_step(res).2 == r.spec_value()
                },
    {
        if self.bound.is_some() {
            let r = InitOutcome::Cached(&self.bound.as_ref().unwrap().0);
            proof {
                let res = arbitrary::<Result<T, E>>();
                assert(old(self).fast_step(res).0 == *self);
            }
            r
        } else {
            self.bind_now(bind)
        }
    }
}

/// Once a value is bound, watched accesses in a row call the binding
/// function no more and all serve that value: of any number of accesses to a
/// storage that needs binding, where the first binding succeeds, exactly one
/// binds.
pub proof fn lemma_single_bind<R, T, E>(s: GgezStorage<R, T>, results: Seq<Result<T, E>>, v: T)
    requires
        s.spec_needs_bind(),
        results.len() >= 1,
        results[0] == Ok::<T, E>(v),
    ensures
        s.watched_run(results).1 == 1,
        s.watched_run(results).0 == s.bound_with(v),
        forall|i: int|
            0 <= i < results.len() ==> #[trigger] s.watched_run(results).2[i] == Some(v),
{
    let t = s.bound_with(v);
    lemma_current_run(t, results.drop_first());
    let rest = t.watched_run(results.drop_first()).2;
    assert forall|i: int| 0 <= i < results.len() implies #[trigger] s.watched_run(results).2[i]
        == Some(v) by {
        if i > 0 {
            assert(rest[i - 1] == Some(v));
        }
    }
}

/// Watched accesses to a storage whose bound value is current change
/// nothing, bind nothing and serve that value.
pub proof fn lemma_current_run<R, T, E>(s: GgezStorage<R, T>, results: Seq<Result<T, E>>)
    requires
        !s.spec_needs_bind(),
    ensures
        s.watched_run(results).0 == s,
        s.watched_run(results).1 == 0,
        s.watched_run(results).2.len() == results.len(),
        forall|i: int|
            0 <= i < results.len() ==> #[trigger] s.watched_run(results).2[i] == s.spec_get(),
    decreases results.len(),
{
    if results.len() > 0 {
        lemma_current_run(s, results.drop_first());
        let rest = s.watched_run(results.drop_first()).2;
        assert forall|i: int| 0 <= i < results.len() implies #[trigger] s.watched_run(
            results,
        ).2[i] == s.spec_get() by {
            if i > 0 {
                assert(rest[i - 1] == s.spec_get());
            }
        }
    }
}

/// A binding that fails after a reload leaves the value bound before in
/// place: the access serves it and hands the error back to be reported.
pub proof fn lemma_fallback_on_error<R, T, E>(
    s: GgezStorage<R, T>,
    raw: R,
    generation: u64,
    e: E,
    next: GgezStorage<R, T>,
    out: InitOutcome<T, E>,
)
    requires
        s.bound is Some,
        s.reloaded_with(raw, generation).after_bind(Err::<T, E>(e), next, out),
    ensures
        next == s.reloaded_with(raw, generation),
        next.spec_get() == s.spec_get(),
        out.spec_value() == s.spec_get(),
        out is Fallback,
        out.spec_error() == Some(e),
{
}

/// A reload to a new generation makes the next watched access bind once
/// from the new raw value, after which the bound value carries the new
/// generation and a further access binds no more.
pub proof fn lemma_reload_rebinds<R, T, E>(
    s: GgezStorage<R, T>,
    raw: R,
    generation: u64,
    res: Result<T, E>,
)
    requires
        s.bound matches Some((_, g)) && g != generation,
    ensures
        s.reloaded_with(raw, generation).spec_needs_bind(),
        s.reloaded_with(raw, generation).watched_step(res).1,
        res is Ok ==> {
            let next = s.reloaded_with(raw, generation).watched_step(res).0;
            &&& next.bound == Some((res->Ok_0, generation))
            &&& !next.spec_needs_bind()
            &&& !next.watched_step(res).1
        },
{
}

/// Once the fast path has bound a value, it serves that value on every
/// later access and never binds again, whatever reloads come in between.
pub proof fn lemma_fast_path_keeps_value<R, T, E>(
    s: GgezStorage<R, T>,
    reloads: Seq<(R, u64)>,
    res: Result<T, E>,
)
    requires
        s.bound is Some,
    ensures
        s.reloaded_all(reloads).bound == s.bound,
        s.reloaded_all(reloads).fast_step(res) == (s.reloaded_all(reloads), false, s.spec_get()),
    decreases reloads.len(),
{
    if reloads.len() > 0 {
        lemma_fast_path_keeps_value(
            s.reloaded_with(reloads[0].0, reloads[0].1),
            reloads.drop_first(),
            res,
        );
    }
}

} // verus!
