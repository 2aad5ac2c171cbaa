use vstd::prelude::*;
use vstd::std_specs::iter::IteratorSpec;

verus! {

/// `h` is what `spawn` returned when handed `item` together with a copy of `f`.
pub open spec fn spawned_with<T, F: Clone, H, S: Fn(T, F) -> H>(spawn: S, f: F, item: T, h: H) -> bool {
    exists|g: F| cloned(f, g) && spawn.ensures((item, g), h)
}

/// A lazy sequence of units of work: one per item of `iter`, each pairing the
/// item with its own copy of `f`.
pub struct UnchainedForEach<I: Iterator, F> {
    iter: I,
    f: F,
    exhausted: bool,
}

impl<I: Iterator, F: Clone> UnchainedForEach<I, F> {
    /// The source that items are pulled from.
    pub closed spec fn source(&self) -> I {
        self.iter
    }

    /// The function that each unit receives a copy of.
    pub closed spec fn function(&self) -> F {
        self.f
    }

    /// Whether the source has reported its end; from then on nothing is pulled.
    pub closed spec fn is_exhausted(&self) -> bool {
        self.exhausted
    }

    /// Takes ownership of the source and the function; pulls nothing.
    pub fn new(iter: I, f: F) -> (r: Self)
        ensures
            r.source() == iter,
            r.function() == f,
            !r.is_exhausted(),
    {
        UnchainedForEach { iter, f, exhausted: false }
    }

    /// Pulls the next item of the source and pairs it with a fresh copy of the
    /// function. Once the source has ended, every later call yields `None`
    /// without touching the source again.
    pub fn next(&mut self) -> (r: Option<(I::Item, F)>)
        ensures
            final(self).function() == old(self).function(),
            old(self).is_exhausted() ==> r is None && *final(self) == *old(self),
            !old(self).is_exhausted() && old(self).source().obeys_prophetic_iter_laws() ==> {
                if old(self).source().remaining().len() > 0 {
                    &&& r matches Some(unit) && unit.0 == old(self).source().remaining()[0]
                        && cloned(old(self).function(), unit.1)
                    &&& !final(self).is_exhausted()
                    &&& final(self).source().remaining() == old(self).source().remaining().drop_first()
                } else {
                    &&& r is None
                    &&& final(self).is_exhausted()
                }
            },
            final(self).source().obeys_prophetic_iter_laws() == old(self).source().obeys_prophetic_iter_laws(),
            old(self).source().obeys_prophetic_iter_laws() ==> (old(self).source().decrease() is Some
                <==> final(self).source().decrease() is Some),
            !old(self).is_exhausted() && old(self).source().obeys_prophetic_iter_laws() && r is Some
                && final(self).source().decrease() is Some ==> decreases_to!(
                old(self).source().decrease()->0 => final(self).source().decrease()->0),
            r is None ==> final(self).is_exhausted(),
            r is Some ==> !final(self).is_exhausted(),
    {
        if self.exhausted {
            return None;
        }
        match self.iter.next() {
            Some(item) => Some((item, self.f.clone())),
            None => {
                self.exhausted = true;
                None
            },
        }
    }

    /// Pulls every remaining item, in source order, handing each with its own
    /// copy of the function to `spawn`, and returns what `spawn` gave back for
    /// each, in the same order. Each item is handed over exactly once.
    pub fn spawn_all<H, S: Fn(I::Item, F) -> H>(&mut self, spawn: S) -> (r: Vec<H>)
        requires
            forall|x: I::Item, g: F| spawn.requires((x, g)),
            old(self).source().obeys_prophetic_iter_laws(),
            !old(self).is_exhausted() ==> old(self).source().decrease() is Some,
        ensures
            final(self).is_exhausted(),
            final(self).function() == old(self).function(),
            old(self).is_exhausted() ==> r@.len() == 0,
            !old(self).is_exhausted() ==> r@.len() == old(self).source().remaining().len(),
            !old(self).is_exhausted() ==> forall|i: int|
                #![trigger r@[i]]
                0 <= i < r@.len() ==> spawned_with(
                    spawn,
                    old(self).function(),
                    old(self).source().remaining()[i],
                    r@[i],
                ),
    {
        let ghost items = if self.exhausted {
            Seq::<I::Item>::empty()
        } else {
            self.iter.remaining()
        };
        let ghost mut pulled = Seq::<I::Item>::empty();
        let mut r: Vec<H> = Vec::new();
        while !self.exhausted
            invariant
                forall|x: I::Item, g: F| spawn.requires((x, g)),
                self.iter.obeys_prophetic_iter_laws(),
                !self.exhausted ==> self.iter.decrease() is Some,
                self.f == old(self).f,
                r@.len() == pulled.len(),
                self.exhausted ==> items == pulled,
                !self.exhausted ==> items == pulled + self.iter.remaining(),
                forall|i: int|
                    #![trigger r@[i]]
                    0 <= i < r@.len() ==> spawned_with(spawn, self.f, pulled[i], r@[i]),
            decreases
                if self.exhausted {
                    0
                } else {
                    self.iter.decrease()->0 + 1
                },
        {
            if let Some(unit) = self.next() {
                let (item, g) = unit;
                let ghost before_r = r@;
                let ghost g0 = g;
                proof {
                    pulled = pulled.push(item);
                }
                let h = spawn(item, g);
                r.push(h);
                assert(spawned_with(spawn, self.f, item, h)) by {
                    assert(spawn.ensures((item, g0), h));
                }
                assert forall|i: int| 0 <= i < r@.len() implies #[trigger] spawned_with(
                    spawn,
                    self.f,
                    pulled[i],
                    r@[i],
                ) by {
                    if i < before_r.len() {
                        assert(r@[i] == before_r[i]);
                    }
                }
            }
        }
        r
    }
}

} // verus!
