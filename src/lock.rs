use vstd::prelude::*;
use core::ops::DerefMut;
use crate::bump::{AllocError, Allocator};

verus! {

/// spin's mutex, opaque here: a value of `T` behind a spin lock with relax strategy `R`.
#[verifier::external_type_specification]
#[verifier::external_body]
#[verifier::reject_recursive_types(T)]
#[verifier::reject_recursive_types(R)]
pub struct ExSpinMutex<T: ?Sized, R>(spin::mutex::Mutex<T, R>);

/// spin's default relax strategy (a busy-wait hint), opaque here.
#[verifier::external_type_specification]
#[verifier::external_body]
pub struct ExSpin(spin::relax::Spin);

/// Relies on spin::mutex::Mutex::new: it takes ownership of the value, unlocked.
pub assume_specification<T, R>[ spin::mutex::Mutex::<T, R>::new ](value: T) -> (r: spin::mutex::Mutex<T, R>);

/// The guard of a locked spin mutex, opaque here; dropping it unlocks.
#[verifier::external_type_specification]
#[verifier::external_body]
#[verifier::reject_recursive_types(T)]
pub struct ExSpinMutexGuard<'a, T: 'a + ?Sized>(spin::mutex::MutexGuard<'a, T>);

/// Relies on spin::mutex::Mutex::lock: it spins until no other guard is live,
/// then hands out the only guard.
pub assume_specification<T: ?Sized, R: spin::RelaxStrategy>[ spin::mutex::Mutex::<T, R>::lock ](
    m: &spin::mutex::Mutex<T, R>,
) -> (g: spin::mutex::MutexGuard<'_, T>);

/// Relies on the `DerefMut` impl of spin::mutex::MutexGuard: exclusive access
/// to the value behind the lock while the guard lives.
pub assume_specification<'a, 'b, T: ?Sized>[ <spin::mutex::MutexGuard<'a, T> as core::ops::DerefMut>::deref_mut ](
    g: &'b mut spin::mutex::MutexGuard<'a, T>,
) -> (r: &'b mut T);

/// A value reachable only through a spin lock.
#[verifier::reject_recursive_types(A)]
pub struct Locked<A> {
    inner: spin::Mutex<A>,
}

impl<A> Locked<A> {
    /// Wraps `inner` behind a spin lock.
    pub fn new(inner: A) -> (r: Self) {
        Locked { inner: spin::Mutex::new(inner) }
    }
}

impl Locked<Allocator> {
    /// Hands the region `[heap_start, heap_start + heap_size)` to the
    /// allocator behind the lock (see [`Allocator::init`]).
    pub fn init(&self, heap_start: usize, heap_size: usize)
        requires
            heap_start + heap_size <= usize::MAX,
    {
        let mut guard = self.inner.lock();
        let a: &mut Allocator = guard.deref_mut();
        a.init(heap_start, heap_size);
    }

    /// Allocates under the lock (see [`Allocator::allocate`]): whatever
    /// state the allocator is in, a block handed out is aligned and its end
    /// does not wrap the address space.
    pub fn allocate(&self, size: usize, align: usize) -> (r: Result<usize, AllocError>)
        requires
            align > 0,
        ensures
            r matches Ok(a) ==> a % align == 0 && a + size <= usize::MAX,
    {
        let mut guard = self.inner.lock();
        let a: &mut Allocator = guard.deref_mut();
        a.allocate(size, align)
    }

    /// Releases one allocation under the lock (see [`Allocator::free`]).
    pub fn free(&self) -> (released: bool) {
        let mut guard = self.inner.lock();
        let a: &mut Allocator = guard.deref_mut();
        a.free()
    }
}

} // verus!
