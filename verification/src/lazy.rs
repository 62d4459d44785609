//! Lazily initialized containers: a plain one-shot cell, and a variant for
//! drivers that runs the driver's own initialization the first time the value
//! is made.

use vstd::prelude::*;

use crate::driver::Driver;

verus! {

/// A value made on first use by a one-shot constructor.
pub struct Lazy<T, F> {
    value: Option<T>,
    init_func: Option<F>,
}

impl<T, F: FnOnce() -> T> Lazy<T, F> {
    /// Whether the value has been made.
    pub closed spec fn is_init(&self) -> bool {
        self.value is Some
    }

    /// Whether the constructor is still in reserve.
    pub closed spec fn has_init_func(&self) -> bool {
        self.init_func is Some
    }

    /// The stored constructor.
    pub closed spec fn init_fn(&self) -> Option<F> {
        self.init_func
    }

    /// The stored value.
    pub closed spec fn value_spec(&self) -> Option<T> {
        self.value
    }

    /// An empty cell holding its constructor.
    pub fn new(f: F) -> (r: Self)
        ensures
            !r.is_init(),
            r.has_init_func(),
            r.init_fn() == Some(f),
    {
        Lazy { value: None, init_func: Some(f) }
    }

    /// Make the value if it has not been made yet. The constructor runs at
    /// most once, ever: the first call invokes it, consumes it and caches a
    /// value it could return; every later call changes nothing.
    pub fn get_or_init(&mut self)
        requires
            old(self).is_init() || old(self).has_init_func(),
            old(self).has_init_func() ==> forall|f: F|
                old(self).init_fn() == Some(f) ==> f.requires(()),
        ensures
            final(self).is_init(),
            old(self).is_init() ==> *final(self) == *old(self),
            !old(self).is_init() ==> final(self).init_fn() is None && (forall|f: F, v: T|
                old(self).init_fn() == Some(f) && final(self).value_spec() == Some(v)
                    ==> f.ensures((), v)),
    {
        if self.value.is_none() {
            let mut taken: Option<F> = None;
            core::mem::swap(&mut taken, &mut self.init_func);
            match taken {
                Some(f) => {
                    self.value = Some(f());
                },
                None => {},  // unreachable: the constructor was still in reserve
            }
        }
    }

    /// The made value.
    pub fn get(&self) -> (r: Option<&T>)
        ensures
            r is Some <==> self.is_init(),
            r matches Some(v) ==> self.value_spec() == Some(*v),
    {
        self.value.as_ref()
    }
}

/// A driver made and brought up on first use; an initialization error is
/// reported once and the driver is kept regardless, matching a boot log that
/// notes the failure and carries on.
pub struct LazyInit<T, F> {
    value: Option<T>,
    init_func: Option<F>,
}

impl<T: Driver, F: FnOnce() -> T> LazyInit<T, F> {
    /// Whether the driver has been made.
    pub closed spec fn is_init(&self) -> bool {
        self.value is Some
    }

    /// Whether the constructor is still in reserve.
    pub closed spec fn has_init_func(&self) -> bool {
        self.init_func is Some
    }

    /// The stored constructor.
    pub closed spec fn init_fn(&self) -> Option<F> {
        self.init_func
    }

    /// An empty cell holding the driver's constructor.
    pub fn new(f: F) -> (r: Self)
        ensures
            !r.is_init(),
            r.has_init_func(),
    {
        LazyInit { value: None, init_func: Some(f) }
    }

    /// Make the driver if it has not been made yet, and run its own
    /// `driver_init` once right after construction. Whether that succeeds or
    /// not, the driver is kept; nothing is claimed of the stored value, since
    /// `driver_init` may reshape it. The constructor runs at most once, and a
    /// call on a made driver changes nothing.
    pub fn get_or_init(&mut self)
        requires
            old(self).is_init() || old(self).has_init_func(),
            old(self).has_init_func() ==> forall|f: F|
                old(self).init_fn() == Some(f) ==> f.requires(()),
        ensures
            final(self).is_init(),
            old(self).is_init() ==> *final(self) == *old(self),
            !old(self).is_init() ==> final(self).init_fn() is None,
    {
        if self.value.is_none() {
            let mut taken: Option<F> = None;
            core::mem::swap(&mut taken, &mut self.init_func);
            match taken {
                Some(f) => {
                    let mut v = f();
                    let _ = v.driver_init();
                    self.value = Some(v);
                },
                None => {},  // unreachable: the constructor was still in reserve
            }
        }
    }

    /// Make and bring up the driver now.
    pub fn init(&mut self)
        requires
            old(self).is_init() || old(self).has_init_func(),
            old(self).has_init_func() ==> forall|f: F|
                old(self).init_fn() == Some(f) ==> f.requires(()),
        ensures
            final(self).is_init(),
            old(self).is_init() ==> *final(self) == *old(self),
            !old(self).is_init() ==> final(self).init_fn() is None,
    {
        self.get_or_init();
    }

    /// The made driver.
    pub fn get(&mut self) -> (r: Option<&mut T>)
        ensures
            r is Some <==> old(self).is_init(),
    {
        self.value.as_mut()
    }
}

} // verus!
