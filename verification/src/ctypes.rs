//! Types for C interop: owned arrays and vectors with their borrowed views,
//! and handles to a heap-allocated value.

use vstd::prelude::*;
use crate::text::owned;

verus! {

/// A handle did not hold the pointer state an operation required.
#[derive(Copy, Clone, Debug, PartialEq, Eq, Structural)]
pub enum PtrError {
    /// The handle itself was null, so it has not been initialised.
    NullHandle,
    /// The handle's target was expected to be null, but held a value.
    HandleTargetNonNull,
    /// The handle's target was expected to hold a value, but was null.
    HandleTargetNull,
}

/// The message of a pointer error.
pub open spec fn ptr_error_message(e: PtrError) -> Seq<char> {
    match e {
        PtrError::NullHandle => "expected a handle, found a null pointer"@,
        PtrError::HandleTargetNonNull => "expected the handle target to be null, found a non-null pointer"@,
        PtrError::HandleTargetNull => "expected the handle target to be non-null, found a null pointer"@,
    }
}

impl PtrError {
    /// The error's message (see [`ptr_error_message`]).
    pub fn to_string(&self) -> (r: String)
        ensures
            r@ == ptr_error_message(*self),
    {
        match self {
            PtrError::NullHandle => owned("expected a handle, found a null pointer"),
            PtrError::HandleTargetNonNull => owned("expected the handle target to be null, found a non-null pointer"),
            PtrError::HandleTargetNull => owned("expected the handle target to be non-null, found a null pointer"),
        }
    }
}

/// A handle to a heap-allocated `T`, pointer-sized: the outer pointer says
/// whether the handle is initialised, the inner one whether it holds a value.
pub struct CHandle<T> {
    slot: Option<Box<Option<Box<T>>>>,
}

/// The state of a handle: `None` when uninitialised, `Some(None)` when
/// initialised and empty, `Some(Some(v))` when holding `v`.
pub type HandleState<T> = Option<Option<T>>;

/// What allocating `v` into a handle in state `s` leaves and returns: the
/// value goes into an initialised, empty handle; an uninitialised one fails
/// with `NullHandle`, a full one with `HandleTargetNonNull`.
pub open spec fn alloc_outcome<T>(s: HandleState<T>, v: T) -> (HandleState<T>, Result<(), PtrError>) {
    match s {
        None => (s, Err(PtrError::NullHandle)),
        Some(Some(_)) => (s, Err(PtrError::HandleTargetNonNull)),
        Some(None) => (Some(Some(v)), Ok(())),
    }
}

/// What taking the value out of a handle in state `s` leaves and returns:
/// the held value, leaving the handle empty; an uninitialised handle fails
/// with `NullHandle`, an empty one with `HandleTargetNull`.
pub open spec fn take_outcome<T>(s: HandleState<T>) -> (HandleState<T>, Result<T, PtrError>) {
    match s {
        None => (s, Err(PtrError::NullHandle)),
        Some(None) => (s, Err(PtrError::HandleTargetNull)),
        Some(Some(v)) => (Some(None), Ok(v)),
    }
}

/// What initialising a handle in state `s` leaves and returns: an
/// uninitialised handle becomes empty; an initialised one fails with
/// `HandleTargetNonNull`.
pub open spec fn init_outcome<T>(s: HandleState<T>) -> (HandleState<T>, Result<(), PtrError>) {
    match s {
        None => (Some(None), Ok(())),
        Some(_) => (s, Err(PtrError::HandleTargetNonNull)),
    }
}

impl<T> View for CHandle<T> {
    type V = HandleState<T>;

    closed spec fn view(&self) -> HandleState<T> {
        match self.slot {
            None => None,
            Some(inner) => match *inner {
                None => Some(None),
                Some(b) => Some(Some(*b)),
            },
        }
    }
}

impl<T> CHandle<T> {
    /// An uninitialised handle.
    pub fn new() -> (r: Self)
        ensures
            r@ is None,
    {
        CHandle { slot: None }
    }

    /// Initialises the handle, empty (see [`init_outcome`]).
    pub fn init(&mut self) -> (r: Result<(), PtrError>)
        ensures
            (final(self)@, r) == init_outcome(old(self)@),
    {
        if self.slot.is_some() {
            return Err(PtrError::HandleTargetNonNull);
        }
        self.slot = Some(Box::new(None));
        Ok(())
    }

    /// Allocates `value` into the handle (see [`alloc_outcome`]).
    pub fn allocate(&mut self, value: T) -> (r: Result<(), PtrError>)
        ensures
            (final(self)@, r) == alloc_outcome(old(self)@, value),
    {
        match self.slot.take() {
            None => Err(PtrError::NullHandle),
            Some(inner) => {
                if inner.is_some() {
                    self.slot = Some(inner);
                    Err(PtrError::HandleTargetNonNull)
                } else {
                    self.slot = Some(Box::new(Some(Box::new(value))));
                    Ok(())
                }
            },
        }
    }

    /// Takes the held value out, leaving the handle empty (see [`take_outcome`]).
    pub fn take(&mut self) -> (r: Result<T, PtrError>)
        ensures
            (final(self)@, r) == take_outcome(old(self)@),
    {
        match self.slot.take() {
            None => Err(PtrError::NullHandle),
            Some(inner) => match *inner {
                None => {
                    self.slot = Some(Box::new(None));
                    Err(PtrError::HandleTargetNull)
                },
                Some(b) => {
                    self.slot = Some(Box::new(None));
                    Ok(*b)
                },
            },
        }
    }

    /// Whether the handle is initialised.
    pub fn is_some(&self) -> (r: bool)
        ensures
            r == (self@ is Some),
    {
        self.slot.is_some()
    }

    /// Whether the handle is uninitialised.
    pub fn is_none(&self) -> (r: bool)
        ensures
            r == (self@ is None),
    {
        self.slot.is_none()
    }

    /// The held value, if the handle is initialised and holds one.
    pub fn get(&self) -> (r: Option<&T>)
        ensures
            match self@ {
                Some(Some(v)) => r == Some(&v),
                _ => r is None,
            },
    {
        match &self.slot {
            None => None,
            Some(inner) => match &**inner {
                None => None,
                Some(b) => Some(&**b),
            },
        }
    }

    /// The held value, to be changed in place, if the handle is initialised
    /// and holds one; what is written through it is what the handle holds.
    pub fn get_mut(&mut self) -> (r: Option<&mut T>)
        ensures
            match old(self)@ {
                Some(Some(v)) => r is Some && *r->0 == v && final(self)@ == Some(Some(*final(r->0))),
                _ => r is None && final(self)@ == old(self)@,
            },
    {
        let holds = match &self.slot {
            None => false,
            Some(inner) => inner.is_some(),
        };
        if !holds {
            return None;
        }
        match &mut self.slot {
            None => None,
            Some(inner) => match &mut **inner {
                None => None,
                Some(b) => Some(&mut **b),
            },
        }
    }
}

impl<T: Default> CHandle<T> {
    /// Allocates the default value into the handle: the outcome of
    /// [`alloc_outcome`] for the value that `T::default` returned.
    pub fn alloc_default(&mut self) -> (r: Result<(), PtrError>)
        ensures
            exists|v: T| call_ensures(T::default, (), v) && (final(self)@, r) == alloc_outcome(old(self)@, v),
    {
        let v = T::default();
        self.allocate(v)
    }
}

/// Allocating a value into an initialised, empty handle and taking it out
/// again gives the value back and leaves the handle empty.
pub proof fn lemma_alloc_then_take<T>(v: T)
    ensures
        alloc_outcome::<T>(Some(None), v) == (Some(Some(v)), Ok::<(), PtrError>(())),
        take_outcome(alloc_outcome::<T>(Some(None), v).0) == (Some(None::<T>), Ok::<T, PtrError>(v)),
{
}

/// A second allocation into a handle fails and keeps the first value; so
/// does a second take, once the first emptied the handle.
pub proof fn lemma_second_alloc_and_take_fail<T>(s: HandleState<T>, a: T, b: T)
    requires
        alloc_outcome(s, a).1 is Ok,
    ensures
        alloc_outcome(alloc_outcome(s, a).0, b) == (Some(Some(a)), Err::<(), PtrError>(PtrError::HandleTargetNonNull)),
        take_outcome(take_outcome(alloc_outcome(s, a).0).0).1 == Err::<T, PtrError>(PtrError::HandleTargetNull),
{
}

/// Nothing can be allocated into, or taken from, a handle that was never
/// initialised.
pub proof fn lemma_uninitialised_handle_fails<T>(v: T)
    ensures
        alloc_outcome::<T>(None, v) == (None::<Option<T>>, Err::<(), PtrError>(PtrError::NullHandle)),
        take_outcome::<T>(None) == (None::<Option<T>>, Err::<T, PtrError>(PtrError::NullHandle)),
{
}

} // verus!
