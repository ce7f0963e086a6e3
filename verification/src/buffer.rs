//! Typed buffers: storage for a fixed number of elements of one type,
//! reserved from the allocator in a single request.
//!
//! The allocator knows sizes, never types. A `Buffer<T>` puts the element type
//! back on the storage it was given: how many elements it was allocated for
//! is fixed when it is made, and a handle on the storage can be had for as
//! long as the buffer is borrowed, and no longer.

use std::collections::TryReserveError;
use vstd::prelude::*;

verus! {

/// The allocator could not provide the storage that was asked for.
#[derive(Clone, Copy, Debug, PartialEq, Eq)]
pub struct AllocationFailure {
    /// The element count of the request that failed.
    pub requested: usize,
}

/// Storage for a fixed number of elements of `T`, owned by whoever allocated
/// it.
///
/// Allocation initialises no element. The storage is released once, when the
/// buffer goes out of scope.
pub struct Buffer<T> {
    storage: Vec<T>,
    length: usize,
    capacity: usize,
}

/// A view of a buffer's storage. It borrows the buffer, so it cannot be used
/// once the buffer is gone.
pub struct RawHandle<'a, T> {
    source: &'a Buffer<T>,
}

/// The number of elements that `v` was allocated for.
pub closed spec fn spec_len<T>(v: &Buffer<T>) -> usize {
    v.length
}

/// The number of elements that the storage of `v` has room for.
pub closed spec fn spec_capacity<T>(v: &Buffer<T>) -> usize {
    v.capacity
}

/// Calls `Vec::try_reserve_exact`, which asks the allocator for room for
/// `additional` more elements and reports a failure instead of aborting.
/// Claimed: the elements of the vector are what they were, whether or not the
/// request was granted. Nothing is claimed of when it is granted.
#[verifier::external_body]
fn try_reserve_exact<T>(storage: &mut Vec<T>, additional: usize) -> (outcome: Result<
    (),
    TryReserveError,
>)
    ensures
        final(storage)@ == old(storage)@,
{
    storage.try_reserve_exact(additional)
}

/// Calls `Vec::capacity`, the number of elements that the vector has room for
/// without going to the allocator again. Claimed: that is no less than the
/// number of elements the vector holds.
#[verifier::external_body]
fn vec_capacity<T>(storage: &Vec<T>) -> (room: usize)
    ensures
        room >= storage@.len(),
{
    storage.capacity()
}

impl<T> Buffer<T> {
    #[verifier::type_invariant]
    spec fn well_formed(self) -> bool {
        &&& self.storage@.len() == 0
        &&& self.length <= self.capacity
    }
}

/// Decides what a request for `n_elts` elements comes to, given the
/// allocator's answer `reserved` and the room `room` that the storage reports
/// afterwards: the request stands when the allocator granted it and the room
/// is enough, and fails otherwise.
pub fn reservation_outcome(
    n_elts: usize,
    reserved: Result<(), TryReserveError>,
    room: usize,
) -> (outcome: Result<(), AllocationFailure>)
    ensures
        outcome is Ok <==> reserved is Ok && n_elts <= room,
        outcome matches Err(failure) ==> failure.requested == n_elts,
{
    match reserved {
        Ok(()) => {
            if n_elts <= room {
                Ok(())
            } else {
                Err(AllocationFailure { requested: n_elts })
            }
        },
        Err(_) => Err(AllocationFailure { requested: n_elts }),
    }
}

/// Allocates a buffer for `n_elts` elements of `T`.
///
/// A request for no elements always succeeds, without going to the allocator.
/// Any other request succeeds when the allocator grants it; a failure carries
/// the count that was asked for and leaves nothing allocated.
pub fn allocate<T>(n_elts: usize) -> (result: Result<Buffer<T>, AllocationFailure>)
    ensures
        n_elts == 0 ==> result is Ok,
        result matches Ok(buffer) ==> len(&buffer) == n_elts && n_elts <= spec_capacity(&buffer),
        result matches Err(failure) ==> failure.requested == n_elts,
{
    let mut storage: Vec<T> = Vec::new();
    let reserved = if n_elts == 0 {
        Ok(())
    } else {
        try_reserve_exact(&mut storage, n_elts)
    };
    let room = vec_capacity(&storage);
    match reservation_outcome(n_elts, reserved, room) {
        Ok(()) => Ok(Buffer { storage, length: n_elts, capacity: room }),
        Err(failure) => Err(failure),
    }
}

/// The number of elements that `v` was allocated for.
#[verifier::when_used_as_spec(spec_len)]
pub fn len<T>(v: &Buffer<T>) -> (n: usize)
    ensures
        n == spec_len(v),
        n <= spec_capacity(v),
{
    proof {
        use_type_invariant(v);
    }
    v.length
}

/// The number of elements that the storage of `v` has room for: never fewer
/// than `v` was allocated for.
#[verifier::when_used_as_spec(spec_capacity)]
pub fn capacity<T>(v: &Buffer<T>) -> (room: usize)
    ensures
        room == spec_capacity(v),
        len(v) <= room,
{
    proof {
        use_type_invariant(v);
    }
    v.capacity
}

/// A handle on the storage of `v`, good for as long as `v` is borrowed. A
/// buffer of no elements has one like any other.
pub fn buf<'a, T>(v: &'a Buffer<T>) -> (handle: RawHandle<'a, T>)
    ensures
        handle.source() == v,
{
    RawHandle { source: v }
}

impl<'a, T> RawHandle<'a, T> {
    /// The buffer whose storage this handle views.
    pub closed spec fn source(&self) -> &'a Buffer<T> {
        self.source
    }

    /// The number of elements behind the handle: as many as its buffer was
    /// allocated for.
    pub fn len(&self) -> (n: usize)
        ensures
            n == len(self.source()),
    {
        self.source.length
    }

    /// The storage itself, for code that passes it on to where this library
    /// does not reach. None of its elements is initialised.
    pub fn storage(&self) -> (storage: &'a Vec<T>)
        ensures
            storage@.len() == 0,
    {
        proof {
            use_type_invariant(self.source);
        }
        &self.source.storage
    }
}

} // verus!
