//! Lenses: views from a whole onto one of its parts, which widgets use to work
//! on a part of the application's data.

use std::marker::PhantomData;
use vstd::prelude::*;

verus! {

/// A view from data of type `U` onto a part of it of type `T`.
pub trait Lens<U, T> {
    /// Whether this lens finds its part in `data`.
    spec fn fits(&self, data: U) -> bool;

    /// The part of `data` this lens shows.
    spec fn focus(&self, data: U) -> T;

    /// Calls `f` on the part of `data` this lens shows.
    fn with<A, F: FnOnce(&T) -> A>(&self, data: &U, f: F) -> (r: A)
        requires
            self.fits(*data),
            f.requires((&self.focus(*data),)),
        ensures
            f.ensures((&self.focus(*data),), r),
    ;

    /// Calls `f` on the part of `data` this lens shows, which `f` may change.
    fn with_mut<A, F: FnOnce(&mut T) -> A>(&self, data: &mut U, f: F) -> (r: A)
        requires
            self.fits(*old(data)),
            forall|t: &mut T| *t == self.focus(*old(data)) ==> f.requires((t,)),
    ;
}

/// Builds lens chains from a lens.
pub trait LensExt<U, T>: Lens<U, T> + Sized {
    /// `lens2` applied to what `self` shows.
    fn chain<S, L2: Lens<T, S>>(self, lens2: L2) -> (r: LensChain<U, T, S, Self, L2>)
        ensures
            r@ == (self, lens2),
    {
        LensChain::new(self, lens2)
    }
}

impl<U, T, L: Lens<U, T>> LensExt<U, T> for L {
}

/// A widget that works on the part of the data that `lens` shows.
pub struct LensWrap<U, T, W, L: Lens<U, T>> {
    inner: W,
    lens: L,
    _phantom: PhantomData<(U, T)>,
}

impl<U, T, W, L: Lens<U, T>> View for LensWrap<U, T, W, L> {
    /// The widget and the lens.
    type V = (W, L);

    closed spec fn view(&self) -> (W, L) {
        (self.inner, self.lens)
    }
}

impl<U, T, W, L: Lens<U, T>> LensWrap<U, T, W, L> {
    pub fn new(inner: W, lens: L) -> (r: Self)
        ensures
            r@ == (inner, lens),
    {
        LensWrap { inner, lens, _phantom: PhantomData }
    }
}

/// Shows element `self.0` of a vector.
#[derive(Clone, Copy)]
pub struct LensSlice(pub usize);

impl<T> Lens<Vec<T>, T> for LensSlice {
    open spec fn fits(&self, data: Vec<T>) -> bool {
        self.0 < data@.len()
    }

    open spec fn focus(&self, data: Vec<T>) -> T {
        data@[self.0 as int]
    }

    fn with<A, F: FnOnce(&T) -> A>(&self, data: &Vec<T>, f: F) -> (r: A) {
        f(&data[self.0])
    }

    fn with_mut<A, F: FnOnce(&mut T) -> A>(&self, data: &mut Vec<T>, f: F) -> (r: A) {
        f(&mut data[self.0])
    }
}

/// Shows the unit value, whatever the data.
pub struct LensUnit;

impl<U> Lens<U, ()> for LensUnit {
    open spec fn fits(&self, data: U) -> bool {
        true
    }

    open spec fn focus(&self, data: U) -> () {
        ()
    }

    fn with<A, F: FnOnce(&()) -> A>(&self, data: &U, f: F) -> (r: A) {
        f(&())
    }

    fn with_mut<A, F: FnOnce(&mut ()) -> A>(&self, data: &mut U, f: F) -> (r: A) {
        let mut unit = ();
        f(&mut unit)
    }
}

/// `lens2` applied to what `lens1` shows.
pub struct LensChain<V, U, T, L1: Lens<V, U>, L2: Lens<U, T>> {
    lens1: L1,
    lens2: L2,
    _phantom: (PhantomData<V>, PhantomData<U>, PhantomData<T>),
}

impl<V, U, T, L1: Lens<V, U>, L2: Lens<U, T>> View for LensChain<V, U, T, L1, L2> {
    /// The two lenses, outer first.
    type V = (L1, L2);

    closed spec fn view(&self) -> (L1, L2) {
        (self.lens1, self.lens2)
    }
}

impl<V, U, T, L1: Lens<V, U>, L2: Lens<U, T>> LensChain<V, U, T, L1, L2> {
    pub fn new(lens1: L1, lens2: L2) -> (r: Self)
        ensures
            r@ == (lens1, lens2),
    {
        LensChain { lens1, lens2, _phantom: (PhantomData, PhantomData, PhantomData) }
    }
}

impl<V, U, T, L1: Lens<V, U>, L2: Lens<U, T>> Lens<V, T> for LensChain<V, U, T, L1, L2> {
    open spec fn fits(&self, data: V) -> bool {
        self@.0.fits(data) && self@.1.fits(self@.0.focus(data))
    }

    open spec fn focus(&self, data: V) -> T {
        self@.1.focus(self@.0.focus(data))
    }

    fn with<A, F: FnOnce(&T) -> A>(&self, data: &V, f: F) -> (r: A) {
        let ghost part = self.lens1.focus(*data);
        let lens2 = &self.lens2;
        let inner = move |u: &U| -> (r: A)
            requires
                *u == part,
                lens2.fits(*u),
                f.requires((&lens2.focus(*u),)),
            ensures
                f.ensures((&lens2.focus(part),), r),
            { lens2.with(u, f) };
        self.lens1.with(data, inner)
    }

    fn with_mut<A, F: FnOnce(&mut T) -> A>(&self, data: &mut V, f: F) -> (r: A) {
        let ghost part = self.lens1.focus(*data);
        let lens2 = &self.lens2;
        let inner = move |u: &mut U| -> (r: A)
            requires
                *old(u) == part,
                lens2.fits(*old(u)),
                forall|t: &mut T| *t == lens2.focus(*old(u)) ==> f.requires((t,)),
            { lens2.with_mut(u, f) };
        self.lens1.with_mut(data, inner)
    }
}

} // verus!
