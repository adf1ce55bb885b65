//! The C interop types: handles, owned arrays and vectors.

use terraffi::buffers::{CSlice, CSliceMutRef, CSliceRef, CVec, CVecMutRef, CVecRef};
use terraffi::ctypes::{CHandle, PtrError};

#[test]
fn handle_is_pointer_sized() {
    // A pointer to a pointer is one machine word.
    assert_eq!(std::mem::size_of::<CHandle<u32>>(), std::mem::size_of::<usize>());
}

#[test]
fn default_handle_is_uninitialised() {
    let handle: CHandle<u32> = CHandle::new();
    assert!(handle.is_none());
}

#[test]
fn handle_round_trip_gives_the_value_back() {
    let mut handle: CHandle<u32> = CHandle::new();
    assert_eq!(handle.allocate(1), Err(PtrError::NullHandle));
    assert_eq!(handle.take(), Err(PtrError::NullHandle));
    assert_eq!(handle.init(), Ok(()));
    assert_eq!(handle.init(), Err(PtrError::HandleTargetNonNull));
    assert!(handle.is_some());
    assert_eq!(handle.get(), None);
    assert_eq!(handle.take(), Err(PtrError::HandleTargetNull));
    assert_eq!(handle.allocate(42), Ok(()));
    assert_eq!(handle.allocate(99), Err(PtrError::HandleTargetNonNull));
    assert_eq!(handle.get(), Some(&42));
    assert_eq!(handle.take(), Ok(42));
    assert_eq!(handle.get(), None);
    assert!(handle.is_some());
    assert_eq!(handle.take(), Err(PtrError::HandleTargetNull));
}

#[test]
fn handle_allocates_the_default() {
    let mut handle: CHandle<u32> = CHandle::new();
    handle.init().unwrap();
    assert_eq!(handle.alloc_default(), Ok(()));
    assert_eq!(handle.get(), Some(&0));
}

#[test]
fn default_handle_get_returns_none() {
    let handle: CHandle<u32> = CHandle::new();
    assert!(handle.get().is_none());
}

#[test]
fn default_handle_get_mut_returns_none() {
    let mut handle: CHandle<u32> = CHandle::new();
    assert!(handle.get_mut().is_none());
}

#[test]
fn default_handle_take_returns_err() {
    let mut handle: CHandle<u32> = CHandle::new();
    assert!(handle.take().is_err());
}

#[test]
fn default_handle_alloc_returns_err() {
    let mut handle: CHandle<u32> = CHandle::new();
    assert!(handle.allocate(42).is_err());
}

#[test]
fn init_then_is_some() {
    let mut handle: CHandle<u32> = CHandle::new();
    handle.init().unwrap();
    assert!(handle.is_some());
}

#[test]
fn double_init_returns_err() {
    let mut handle: CHandle<u32> = CHandle::new();
    handle.init().unwrap();
    assert!(handle.init().is_err());
}

#[test]
fn alloc_then_get_returns_value() {
    let mut handle: CHandle<u32> = CHandle::new();
    handle.init().unwrap();
    handle.allocate(42).unwrap();
    assert_eq!(handle.get(), Some(&42));
}

#[test]
fn alloc_then_get_mut_returns_value() {
    let mut handle: CHandle<u32> = CHandle::new();
    handle.init().unwrap();
    handle.allocate(42).unwrap();
    assert_eq!(handle.get_mut(), Some(&mut 42));
}

#[test]
fn get_mut_can_modify_value() {
    let mut handle: CHandle<u32> = CHandle::new();
    handle.init().unwrap();
    handle.allocate(42).unwrap();
    *handle.get_mut().unwrap() = 99;
    assert_eq!(handle.get(), Some(&99));
}

#[test]
fn take_returns_value_and_nullifies_inner() {
    let mut handle: CHandle<u32> = CHandle::new();
    handle.init().unwrap();
    handle.allocate(42).unwrap();
    assert_eq!(handle.take(), Ok(42));
    assert!(handle.get().is_none());
    assert!(handle.is_some()); // outer pointer still valid
}

#[test]
fn double_take_returns_err() {
    let mut handle: CHandle<u32> = CHandle::new();
    handle.init().unwrap();
    handle.allocate(42).unwrap();
    assert!(handle.take().is_ok());
    assert!(handle.take().is_err());
}

#[test]
fn double_alloc_returns_err() {
    let mut handle: CHandle<u32> = CHandle::new();
    handle.init().unwrap();
    handle.allocate(42).unwrap();
    assert!(handle.allocate(99).is_err());
}

#[test]
fn ptr_errors_have_messages() {
    assert_eq!(PtrError::NullHandle.to_string(), "expected a handle, found a null pointer");
    assert_eq!(
        PtrError::HandleTargetNonNull.to_string(),
        "expected the handle target to be null, found a non-null pointer"
    );
    assert_eq!(
        PtrError::HandleTargetNull.to_string(),
        "expected the handle target to be non-null, found a null pointer"
    );
}

#[test]
fn test_cvec_new_is_empty() {
    let v: CVec<i32> = CVec::new();
    assert_eq!(v.len(), 0);
    assert_eq!(v.capacity(), 0);
    assert!(v.is_empty());
}

#[test]
fn test_cvec_with_capacity() {
    let v: CVec<i32> = CVec::with_capacity(10);
    assert_eq!(v.len(), 0);
    assert!(v.capacity() >= 10);
}

#[test]
fn test_cvec_reserve_grows_capacity() {
    let mut v: CVec<i32> = CVec::new();
    v.reserve(10);
    assert!(v.capacity() >= 10);
    assert_eq!(v.len(), 0);
}

#[test]
fn test_cvec_reserve_noop_when_sufficient() {
    let mut v: CVec<i32> = CVec::with_capacity(20);
    let cap_before = v.capacity();
    v.reserve(5);
    assert_eq!(v.capacity(), cap_before);
}

#[test]
fn test_cvec_reserve_exact() {
    let mut v: CVec<i32> = CVec::new();
    v.reserve_exact(10);
    assert!(v.capacity() >= 10);
}

#[test]
fn test_cvec_from_vec() {
    let v: CVec<i32> = vec![1, 2, 3].into();
    assert_eq!(v.len(), 3);
    assert_eq!(v.as_slice(), &[1, 2, 3]);
}

#[test]
fn test_cvec_shrink_to_fit() {
    let mut v: CVec<i32> = vec![1, 2, 3].into();
    v.reserve(100);
    assert!(v.capacity() >= 100);
    v.shrink_to_fit();
    assert_eq!(v.capacity(), v.len());
    assert_eq!(v.as_slice(), &[1, 2, 3]);
}

#[test]
fn test_cvec_clear_empties_but_keeps_capacity() {
    let mut v: CVec<i32> = vec![1, 2, 3].into();
    let cap = v.capacity();
    v.clear();
    assert_eq!(v.len(), 0);
    assert_eq!(v.capacity(), cap);
    assert_eq!(v.as_slice(), &[]);
}

#[test]
fn test_cvec_as_mut_slice() {
    let mut v: CVec<i32> = vec![1, 2, 3].into();
    v.as_mut_slice()[0] = 42;
    assert_eq!(v.as_slice(), &[42, 2, 3]);
}

#[test]
fn test_cvec_clone_is_independent() {
    let a: CVec<i32> = vec![1, 2, 3].into();
    let mut b = a.clone();
    b.as_mut_slice()[0] = 99;
    assert_eq!(a.as_slice(), &[1, 2, 3]);
    assert_eq!(b.as_slice(), &[99, 2, 3]);
}

#[test]
fn cvec_reserve_sets_the_capacity_asked_for() {
    let mut v: CVec<i32> = vec![1, 2, 3].into();
    v.reserve(100);
    assert_eq!(v.capacity(), 103);
    v.reserve(50);
    assert_eq!(v.capacity(), 103);
    v.shrink_to_fit();
    assert_eq!(v.capacity(), 3);
    let c = v.clone();
    assert_eq!(c.capacity(), 3);
}

#[test]
fn cvec_views_share_elements_and_capacity() {
    let mut v: CVec<i32> = CVec::with_capacity(8);
    v.reserve(2);
    assert_eq!(v.capacity(), 8);
    let mut w: CVec<i32> = vec![4, 5, 6].into();
    let r: CVecRef<'_, i32> = CVecRef::from_c_vec(&w);
    assert_eq!(r.len(), 3);
    assert_eq!(r.capacity(), 3);
    assert_eq!(r.iter().copied().collect::<Vec<_>>(), vec![4, 5, 6]);
    let mut m: CVecMutRef<'_, i32> = w.as_mut();
    assert_eq!(m.capacity(), 3);
    m.as_mut_slice()[2] = 60;
    assert_eq!(m.as_slice(), &[4, 5, 60]);
    assert_eq!(w.as_slice(), &[4, 5, 60]);
    let m2 = CVecMutRef::from_c_vec(&mut w);
    assert_eq!(m2.len(), 3);
    assert!(!m2.is_empty());
}

#[test]
fn empty_views_by_default() {
    let r: CVecRef<'_, i32> = CVecRef::default();
    assert!(r.is_empty());
    assert_eq!(r.capacity(), 0);
    let m: CVecMutRef<'_, i32> = CVecMutRef::default();
    assert!(m.is_empty());
    assert_eq!(m.capacity(), 0);
    let s: CSliceRef<'_, i32> = CSliceRef::default();
    assert!(s.is_empty());
}

#[test]
fn views_compare_by_elements() {
    let a: CVec<i32> = vec![1, 2, 3].into();
    let mut b: CVec<i32> = vec![1, 2, 3].into();
    b.reserve(10);
    assert_eq!(CVecRef::from_c_vec(&a), CVecRef::from_c_vec(&b));
    assert_eq!(a.as_ref(), b.as_ref());
    let c: CVec<i32> = vec![1, 2].into();
    assert_ne!(CVecRef::from_c_vec(&a), CVecRef::from_c_vec(&c));
    let sr: CSliceRef<'_, i32> = c.as_ref();
    assert_eq!(sr.as_slice(), &[1, 2]);
    let x: CSlice<i32> = vec![7, 8].into();
    let mut y: CSlice<i32> = vec![7, 8].into();
    assert_eq!(x.as_ref(), CSliceRef::from_c_slice(&x));
    let ym: CSliceMutRef<'_, i32> = y.as_mut();
    assert_eq!(ym.as_slice(), &[7, 8]);
    assert_eq!(ym.iter().sum::<i32>(), 15);
}

#[test]
fn test_cvec_eq() {
    let a: CVec<i32> = vec![1, 2, 3].into();
    let b: CVec<i32> = vec![1, 2, 3].into();
    let c: CVec<i32> = vec![4, 5, 6].into();
    assert_eq!(a, b);
    assert_ne!(a, c);
}

#[test]
fn test_cslice_eq() {
    let a: CSlice<i32> = vec![1, 2, 3].into();
    let b: CSlice<i32> = vec![1, 2, 3].into();
    let c: CSlice<i32> = vec![1, 2, 4].into();
    assert_eq!(a, b);
    assert_ne!(a, c);
}

#[test]
fn cslice_views_its_elements() {
    let s: CSlice<i32> = vec![10, 20, 30].into();
    assert_eq!(s.len(), 3);
    assert!(!s.is_empty());
    assert_eq!(s.as_slice(), &[10, 20, 30]);
    let r: CSliceRef<'_, i32> = s.as_ref();
    assert_eq!(r.len(), 3);
    assert_eq!(r.as_slice(), &[10, 20, 30]);
    assert_eq!(s.iter().sum::<i32>(), 60);
    let d: CSlice<i32> = CSlice::default();
    assert!(d.is_empty());
}

#[test]
fn cslice_changes_in_place() {
    let mut s: CSlice<i32> = vec![1, 2, 3].into();
    s.as_mut_slice()[1] = 99;
    assert_eq!(s.as_slice(), &[1, 99, 3]);
    let m = s.as_mut();
    assert_eq!(m.len(), 3);
    assert!(!m.is_empty());
    assert_eq!(m.as_slice(), &[1, 99, 3]);
}

#[test]
fn test_cslice_default_is_empty() {
    let s: CSlice<i32> = CSlice::default();
    assert_eq!(s.len(), 0);
    assert_eq!(s.as_slice(), &[]);
}

#[test]
fn test_cslice_from_vec() {
    let s: CSlice<i32> = vec![10, 20, 30].into();
    assert_eq!(s.len(), 3);
    assert_eq!(s.as_slice(), &[10, 20, 30]);
}

#[test]
fn test_cslice_as_mut_slice() {
    let mut s: CSlice<i32> = vec![1, 2, 3].into();
    s.as_mut_slice()[1] = 99;
    assert_eq!(s.as_slice(), &[1, 99, 3]);
}

#[test]
fn test_cslice_clone_is_independent() {
    let a: CSlice<i32> = vec![1, 2, 3].into();
    let mut b = a.clone();
    b.as_mut_slice()[0] = 99;
    assert_eq!(a.as_slice(), &[1, 2, 3]);
    assert_eq!(b.as_slice(), &[99, 2, 3]);
}

#[test]
fn cslice_mut_view_changes_in_place() {
    let mut s: CSlice<i32> = vec![1, 2, 3].into();
    let mut m = s.as_mut();
    m.as_mut_slice()[0] = 5;
    assert_eq!(m.as_slice(), &[5, 2, 3]);
    assert_eq!(s.as_slice(), &[5, 2, 3]);
}

#[test]
fn converting_a_vector_keeps_its_allocation() {
    let mut w: Vec<i32> = Vec::with_capacity(10);
    w.push(1);
    let v: CVec<i32> = w.into();
    assert_eq!(v.len(), 1);
    assert!(v.capacity() >= 10);
}

#[test]
fn zero_sized_vectors_report_the_largest_capacity() {
    let empty: CVec<()> = CVec::new();
    assert_eq!(empty.capacity(), 0);
    let sized: CVec<()> = CVec::with_capacity(10);
    assert_eq!(sized.capacity(), usize::MAX);
    let converted: CVec<()> = vec![(), ()].into();
    assert_eq!(converted.capacity(), usize::MAX);
    assert_eq!(converted.clone().capacity(), usize::MAX);
    let mut grown: CVec<()> = CVec::new();
    grown.reserve(5);
    assert_eq!(grown.capacity(), usize::MAX);
    grown.shrink_to_fit();
    assert_eq!(grown.capacity(), usize::MAX);
    let mut cleared: CVec<()> = CVec::new();
    cleared.clear();
    assert_eq!(cleared.capacity(), usize::MAX);
    let mut exact: CVec<()> = CVec::new();
    exact.reserve_exact(3);
    assert_eq!(exact.capacity(), usize::MAX);
}
