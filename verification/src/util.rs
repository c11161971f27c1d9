//! A cell that starts empty and is filled with a value in place.
use vstd::prelude::*;

verus! {

/// Storage that starts uninitialized, is written once per use and can be
/// emptied again (the value is dropped).
pub struct UninitCell<T>(Option<T>);

impl<T> UninitCell<T> {
    /// The stored value, if the cell is initialized.
    pub closed spec fn value(&self) -> Option<T> {
        self.0
    }

    pub fn uninit() -> (r: Self)
        ensures
            r.value() is None,
    {
        UninitCell(None)
    }

    pub fn is_uninit(&self) -> (r: bool)
        ensures
            r == (self.value() is None),
    {
        self.0.is_none()
    }

    /// Initializes the cell with the result of `func`.
    pub fn write_in_place(&mut self, func: impl FnOnce() -> T)
        requires
            call_requires(func, ()),
        ensures
            final(self).value() is Some,
            call_ensures(func, (), final(self).value().unwrap()),
    {
        let v = func();
        self.0 = Some(v);
    }

    /// Mutable access to the stored value.
    pub fn as_mut(&mut self) -> (r: &mut T)
        requires
            old(self).value() is Some,
        ensures
            *r == old(self).value().unwrap(),
            final(self).value() == Some(*final(r)),
    {
        self.0.as_mut().unwrap()
    }

    /// Drops the stored value, leaving the cell uninitialized.
    pub fn drop_in_place(&mut self)
        ensures
            final(self).value() is None,
    {
        self.0 = None;
    }
}

} // verus!
