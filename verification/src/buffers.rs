//! Owned C-compatible arrays and resizable vectors, and borrowed views of them.

use vstd::prelude::*;
use vstd::std_specs::cmp::{PartialEqSpec, PartialEqSpecImpl};
use vstd::std_specs::slice::into_iter_elts;
use vstd::std_specs::convert::FromSpecImpl;

verus! {

/// `Vec::reserve_exact`: the contents stay; the capacity grows to at least
/// the length plus `additional`, without speculative over-allocation.
/// The capacity reached is not stated here.
#[verifier::external_body]
fn vec_reserve_exact<T>(v: &mut Vec<T>, additional: usize)
    requires
        old(v)@.len() + additional <= usize::MAX,
        (old(v)@.len() + additional) * vstd::layout::size_of::<T>() <= isize::MAX,
    ensures
        final(v)@ == old(v)@,
{
    v.reserve_exact(additional)
}

/// `Vec::shrink_to_fit`: the contents stay; the capacity shrinks as far as
/// the allocator allows. The capacity reached is not stated here.
#[verifier::external_body]
fn vec_shrink_to_fit<T>(v: &mut Vec<T>)
    ensures
        final(v)@ == old(v)@,
{
    v.shrink_to_fit()
}

/// `Vec::capacity`: how many elements the vector holds without reallocating,
/// never less than its length, and `usize::MAX` for a zero-sized element
/// type (as std documents). How much more the allocator gave is not stated.
#[verifier::external_body]
fn vec_capacity<T>(v: &Vec<T>) -> (r: usize)
    ensures
        v@.len() <= r,
        zero_sized::<T>() ==> r == usize::MAX,
{
    v.capacity()
}

/// Whether values of `T` take no space.
pub open spec fn zero_sized<T>() -> bool {
    vstd::layout::size_of::<T>() == 0
}

/// Whether values of `T` take no space.
fn is_zero_sized<T>() -> (r: bool)
    ensures
        r == zero_sized::<T>(),
{
    core::mem::size_of::<T>() == 0
}

/// The capacity a vector of `T` has once it has gone through an allocation
/// sized to `wanted`: `usize::MAX` for a zero-sized `T`, else `wanted`.
pub open spec fn sized_capacity<T>(wanted: nat) -> nat {
    if zero_sized::<T>() {
        usize::MAX as nat
    } else {
        wanted
    }
}

/// An owned, resizable array for C interop.
///
/// Its capacity is the number of elements it was sized to hold without
/// reallocating: what it was last sized to (for a converted vector, what its
/// allocation held), or its length where that is more. A vector of a
/// zero-sized type that has been sized at all holds `usize::MAX`.
#[derive(Debug)]
pub struct CVec<T> {
    items: Vec<T>,
    capacity: usize,
}

impl<T> View for CVec<T> {
    type V = Seq<T>;

    closed spec fn view(&self) -> Seq<T> {
        self.items@
    }
}

impl<T> CVec<T> {
    /// The number of elements the vector holds without reallocating.
    pub closed spec fn reserved(&self) -> nat {
        if self.capacity < self.items@.len() {
            self.items@.len()
        } else {
            self.capacity as nat
        }
    }

    /// The capacity is never less than the length.
    pub proof fn lemma_len_within_reserved(&self)
        ensures
            self@.len() <= self.reserved(),
    {
    }

    /// An empty vector that has allocated nothing.
    pub fn new() -> (r: Self)
        ensures
            r@ == Seq::<T>::empty(),
            r.reserved() == 0,
    {
        CVec { items: Vec::new(), capacity: 0 }
    }

    /// An empty vector sized to hold `capacity` elements.
    pub fn with_capacity(capacity: usize) -> (r: Self)
        requires
            capacity * vstd::layout::size_of::<T>() <= isize::MAX,
        ensures
            r@ == Seq::<T>::empty(),
            r.reserved() == sized_capacity::<T>(capacity as nat),
    {
        let c = if is_zero_sized::<T>() { usize::MAX } else { capacity };
        CVec { items: Vec::with_capacity(capacity), capacity: c }
    }

    /// The number of elements.
    pub fn len(&self) -> (r: usize)
        ensures
            r == self@.len(),
    {
        self.items.len()
    }

    /// The number of elements the vector holds without reallocating.
    pub fn capacity(&self) -> (r: usize)
        ensures
            r == self.reserved(),
            self@.len() <= r,
    {
        if self.capacity < self.items.len() {
            self.items.len()
        } else {
            self.capacity
        }
    }

    /// Whether the vector holds no elements.
    pub fn is_empty(&self) -> (r: bool)
        ensures
            r == (self@.len() == 0),
    {
        self.items.len() == 0
    }

    /// The elements.
    pub fn as_slice(&self) -> (r: &[T])
        ensures
            r@ == self@,
    {
        self.items.as_slice()
    }

    /// The elements, to be changed in place. A slice keeps its length, and
    /// with it the capacity stays.
    pub fn as_mut_slice(&mut self) -> (r: &mut [T])
        ensures
            r@ == old(self)@,
            final(self)@ == final(r)@,
            final(r)@.len() == r@.len() ==> final(self).reserved() == old(self).reserved(),
    {
        self.items.as_mut_slice()
    }

    /// An iterator over the elements, first to last.
    pub fn iter(&self) -> (r: std::slice::Iter<'_, T>)
        ensures
            into_iter_elts(r) == self@,
    {
        broadcast use vstd::std_specs::slice::axiom_spec_slice_iter;
        self.items.as_slice().iter()
    }

    /// A borrowed view of the vector's elements.
    pub fn as_ref(&self) -> (r: CSliceRef<'_, T>)
        ensures
            r@ == self@,
    {
        CSliceRef { items: self.items.as_slice() }
    }

    /// A borrowed view of the vector through which its elements can change.
    pub fn as_mut(&mut self) -> (r: CVecMutRef<'_, T>)
        ensures
            r@ == old(self)@,
            r.reserved() == old(self).reserved(),
    {
        CVecMutRef::from_c_vec(self)
    }

    /// Removes all elements, keeping the capacity (for a zero-sized type,
    /// the capacity of any vector: `usize::MAX`).
    pub fn clear(&mut self)
        ensures
            final(self)@ == Seq::<T>::empty(),
            final(self).reserved() == sized_capacity::<T>(old(self).reserved()),
    {
        let c = if is_zero_sized::<T>() { usize::MAX } else { self.capacity() };
        self.items.clear();
        self.capacity = c;
    }

    /// Makes room for at least `additional` more elements; does nothing
    /// where there is room already.
    pub fn reserve(&mut self, additional: usize)
        requires
            old(self)@.len() + additional <= usize::MAX,
            (old(self)@.len() + additional) * vstd::layout::size_of::<T>() <= isize::MAX,
        ensures
            final(self)@ == old(self)@,
            final(self).reserved() == if old(self)@.len() + additional <= old(self).reserved() {
                old(self).reserved()
            } else {
                sized_capacity::<T>((old(self)@.len() + additional) as nat)
            },
    {
        let need = self.items.len() + additional;
        if need <= self.capacity() {
            return;
        }
        self.items.reserve(additional);
        self.capacity = if is_zero_sized::<T>() { usize::MAX } else { need };
    }

    /// Makes room for at least `additional` more elements without
    /// over-allocating; does nothing where there is room already.
    pub fn reserve_exact(&mut self, additional: usize)
        requires
            old(self)@.len() + additional <= usize::MAX,
            (old(self)@.len() + additional) * vstd::layout::size_of::<T>() <= isize::MAX,
        ensures
            final(self)@ == old(self)@,
            final(self).reserved() == if old(self)@.len() + additional <= old(self).reserved() {
                old(self).reserved()
            } else {
                sized_capacity::<T>((old(self)@.len() + additional) as nat)
            },
    {
        let need = self.items.len() + additional;
        if need <= self.capacity() {
            return;
        }
        vec_reserve_exact(&mut self.items, additional);
        self.capacity = if is_zero_sized::<T>() { usize::MAX } else { need };
    }

    /// Shrinks the capacity to the length; does nothing where they agree. A
    /// vector of a zero-sized type keeps `usize::MAX`.
    pub fn shrink_to_fit(&mut self)
        ensures
            final(self)@ == old(self)@,
            final(self).reserved() == if old(self).reserved() <= old(self)@.len() {
                old(self)@.len() as nat
            } else {
                sized_capacity::<T>(old(self)@.len() as nat)
            },
    {
        if self.capacity() <= self.items.len() {
            return;
        }
        vec_shrink_to_fit(&mut self.items);
        self.capacity = if is_zero_sized::<T>() { usize::MAX } else { self.items.len() };
    }
}

impl<T> Default for CVec<T> {
    /// An empty vector that has allocated nothing.
    fn default() -> (r: Self)
        ensures
            r@ == Seq::<T>::empty(),
            r.reserved() == 0,
    {
        CVec::new()
    }
}

impl<T> From<Vec<T>> for CVec<T> {
    /// The elements of `value`, and its allocation's capacity.
    fn from(value: Vec<T>) -> (r: Self)
        ensures
            r@ == value@,
            value@.len() <= r.reserved(),
            zero_sized::<T>() ==> r.reserved() == usize::MAX,
    {
        let capacity = vec_capacity(&value);
        CVec { items: value, capacity }
    }
}

impl<T> FromSpecImpl<Vec<T>> for CVec<T> {
    /// The capacity a conversion keeps is what the allocator gave the vector,
    /// which is no function of its elements; so conversions are described by
    /// the `ensures` of `from` alone, and not through this spec.
    open spec fn obeys_from_spec() -> bool {
        false
    }

    closed spec fn from_spec(v: Vec<T>) -> Self {
        arbitrary()
    }
}

impl<T: PartialEq + PartialEqSpec> PartialEq for CVec<T> {
    /// Whether the two vectors hold equal elements, capacity aside.
    fn eq(&self, other: &Self) -> (r: bool) {
        self.items == other.items
    }
}

impl<T: PartialEq + PartialEqSpec> PartialEqSpecImpl for CVec<T> {
    open spec fn obeys_eq_spec() -> bool {
        T::obeys_eq_spec()
    }

    closed spec fn eq_spec(&self, other: &Self) -> bool {
        PartialEqSpec::eq_spec(&self.items, &other.items)
    }
}

/// A borrowed view of a [`CVec`].
#[derive(Debug)]
pub struct CVecRef<'a, T> {
    items: &'a [T],
    capacity: usize,
}

impl<'a, T> View for CVecRef<'a, T> {
    type V = Seq<T>;

    closed spec fn view(&self) -> Seq<T> {
        self.items@
    }
}

impl<'a, T> CVecRef<'a, T> {
    /// The number of elements the viewed vector holds without reallocating.
    pub closed spec fn reserved(&self) -> nat {
        self.capacity as nat
    }

    /// A view of `c_vec`.
    pub fn from_c_vec(c_vec: &'a CVec<T>) -> (r: Self)
        ensures
            r@ == c_vec@,
            r.reserved() == c_vec.reserved(),
    {
        CVecRef { items: c_vec.items.as_slice(), capacity: c_vec.capacity() }
    }

    /// The number of elements.
    pub fn len(&self) -> (r: usize)
        ensures
            r == self@.len(),
    {
        self.items.len()
    }

    /// The number of elements the viewed vector holds without reallocating.
    pub fn capacity(&self) -> (r: usize)
        ensures
            r == self.reserved(),
    {
        self.capacity
    }

    /// Whether there are no elements.
    pub fn is_empty(&self) -> (r: bool)
        ensures
            r == (self@.len() == 0),
    {
        self.items.len() == 0
    }

    /// The elements.
    pub fn as_slice(&self) -> (r: &[T])
        ensures
            r@ == self@,
    {
        self.items
    }

    /// An iterator over the elements, first to last.
    pub fn iter(&self) -> (r: std::slice::Iter<'_, T>)
        ensures
            into_iter_elts(r) == self@,
    {
        broadcast use vstd::std_specs::slice::axiom_spec_slice_iter;
        self.items.iter()
    }
}

/// A mutable borrowed view of a [`CVec`].
#[derive(Debug)]
pub struct CVecMutRef<'a, T> {
    items: &'a mut [T],
    capacity: usize,
}

impl<'a, T> View for CVecMutRef<'a, T> {
    type V = Seq<T>;

    closed spec fn view(&self) -> Seq<T> {
        self.items@
    }
}

impl<'a, T> CVecMutRef<'a, T> {
    /// The number of elements the viewed vector holds without reallocating.
    pub closed spec fn reserved(&self) -> nat {
        self.capacity as nat
    }

    /// A mutable view of `c_vec`.
    pub fn from_c_vec(c_vec: &'a mut CVec<T>) -> (r: Self)
        ensures
            r@ == old(c_vec)@,
            r.reserved() == old(c_vec).reserved(),
    {
        let capacity = c_vec.capacity();
        CVecMutRef { items: c_vec.items.as_mut_slice(), capacity }
    }

    /// The number of elements.
    pub fn len(&self) -> (r: usize)
        ensures
            r == self@.len(),
    {
        self.items.len()
    }

    /// The number of elements the viewed vector holds without reallocating.
    pub fn capacity(&self) -> (r: usize)
        ensures
            r == self.reserved(),
    {
        self.capacity
    }

    /// Whether there are no elements.
    pub fn is_empty(&self) -> (r: bool)
        ensures
            r == (self@.len() == 0),
    {
        self.items.len() == 0
    }

    /// The elements.
    pub fn as_slice(&self) -> (r: &[T])
        ensures
            r@ == self@,
    {
        &*self.items
    }

    /// The elements, to be changed in place; the capacity stays.
    pub fn as_mut_slice(&mut self) -> (r: &mut [T])
        ensures
            r@ == old(self)@,
            final(self)@ == final(r)@,
            final(self).reserved() == old(self).reserved(),
    {
        &mut *self.items
    }

    /// An iterator over the elements, first to last.
    pub fn iter(&self) -> (r: std::slice::Iter<'_, T>)
        ensures
            into_iter_elts(r) == self@,
    {
        broadcast use vstd::std_specs::slice::axiom_spec_slice_iter;
        self.items.iter()
    }
}

/// An owned array for C interop.
#[derive(Debug)]
pub struct CSlice<T> {
    items: Vec<T>,
}

impl<T> View for CSlice<T> {
    type V = Seq<T>;

    closed spec fn view(&self) -> Seq<T> {
        self.items@
    }
}

impl<T> CSlice<T> {
    /// The number of elements.
    pub fn len(&self) -> (r: usize)
        ensures
            r == self@.len(),
    {
        self.items.len()
    }

    /// Whether there are no elements.
    pub fn is_empty(&self) -> (r: bool)
        ensures
            r == (self@.len() == 0),
    {
        self.items.len() == 0
    }

    /// The elements.
    pub fn as_slice(&self) -> (r: &[T])
        ensures
            r@ == self@,
    {
        self.items.as_slice()
    }

    /// An iterator over the elements, first to last.
    pub fn iter(&self) -> (r: std::slice::Iter<'_, T>)
        ensures
            into_iter_elts(r) == self@,
    {
        broadcast use vstd::std_specs::slice::axiom_spec_slice_iter;
        self.items.as_slice().iter()
    }

    /// A borrowed view of the array.
    pub fn as_ref(&self) -> (r: CSliceRef<'_, T>)
        ensures
            r@ == self@,
    {
        CSliceRef::from_c_slice(self)
    }
}

impl<T> Default for CSlice<T> {
    /// An empty array.
    fn default() -> (r: Self)
        ensures
            r@ == Seq::<T>::empty(),
    {
        CSlice { items: Vec::new() }
    }
}

impl<T> From<Vec<T>> for CSlice<T> {
    /// The elements of `value`.
    fn from(value: Vec<T>) -> (r: Self) {
        CSlice { items: value }
    }
}

impl<T> FromSpecImpl<Vec<T>> for CSlice<T> {
    open spec fn obeys_from_spec() -> bool {
        true
    }

    closed spec fn from_spec(v: Vec<T>) -> Self {
        CSlice { items: v }
    }
}

impl<T: PartialEq + PartialEqSpec> PartialEq for CSlice<T> {
    /// Whether the two arrays hold equal elements.
    fn eq(&self, other: &Self) -> (r: bool) {
        self.items == other.items
    }
}

impl<T: PartialEq + PartialEqSpec> PartialEqSpecImpl for CSlice<T> {
    open spec fn obeys_eq_spec() -> bool {
        T::obeys_eq_spec()
    }

    closed spec fn eq_spec(&self, other: &Self) -> bool {
        PartialEqSpec::eq_spec(&self.items, &other.items)
    }
}

/// A borrowed view of a [`CSlice`].
#[derive(Debug)]
pub struct CSliceRef<'a, T> {
    items: &'a [T],
}

impl<'a, T> View for CSliceRef<'a, T> {
    type V = Seq<T>;

    closed spec fn view(&self) -> Seq<T> {
        self.items@
    }
}

impl<'a, T> CSliceRef<'a, T> {
    /// A view of `c_slice`.
    pub fn from_c_slice(c_slice: &'a CSlice<T>) -> (r: Self)
        ensures
            r@ == c_slice@,
    {
        CSliceRef { items: c_slice.items.as_slice() }
    }

    /// The number of elements.
    pub fn len(&self) -> (r: usize)
        ensures
            r == self@.len(),
    {
        self.items.len()
    }

    /// Whether there are no elements.
    pub fn is_empty(&self) -> (r: bool)
        ensures
            r == (self@.len() == 0),
    {
        self.items.len() == 0
    }

    /// The elements.
    pub fn as_slice(&self) -> (r: &[T])
        ensures
            r@ == self@,
    {
        self.items
    }

    /// An iterator over the elements, first to last.
    pub fn iter(&self) -> (r: std::slice::Iter<'_, T>)
        ensures
            into_iter_elts(r) == self@,
    {
        broadcast use vstd::std_specs::slice::axiom_spec_slice_iter;
        self.items.iter()
    }
}

impl<T> CSlice<T> {
    /// The elements, to be changed in place.
    pub fn as_mut_slice(&mut self) -> (r: &mut [T])
        ensures
            r@ == old(self)@,
            final(self)@ == final(r)@,
    {
        self.items.as_mut_slice()
    }

    /// A borrowed view of the array through which its elements can change.
    pub fn as_mut(&mut self) -> (r: CSliceMutRef<'_, T>)
        ensures
            r@ == old(self)@,
    {
        CSliceMutRef::from_c_slice(self)
    }
}

/// A mutable borrowed view of a [`CSlice`].
#[derive(Debug)]
pub struct CSliceMutRef<'a, T> {
    items: &'a mut [T],
}

impl<'a, T> View for CSliceMutRef<'a, T> {
    type V = Seq<T>;

    closed spec fn view(&self) -> Seq<T> {
        self.items@
    }
}

impl<'a, T> CSliceMutRef<'a, T> {
    /// A mutable view of `c_slice`.
    pub fn from_c_slice(c_slice: &'a mut CSlice<T>) -> (r: Self)
        ensures
            r@ == old(c_slice)@,
    {
        CSliceMutRef { items: c_slice.items.as_mut_slice() }
    }

    /// The number of elements.
    pub fn len(&self) -> (r: usize)
        ensures
            r == self@.len(),
    {
        self.items.len()
    }

    /// Whether there are no elements.
    pub fn is_empty(&self) -> (r: bool)
        ensures
            r == (self@.len() == 0),
    {
        self.items.len() == 0
    }

    /// The elements.
    pub fn as_slice(&self) -> (r: &[T])
        ensures
            r@ == self@,
    {
        &*self.items
    }

    /// The elements, to be changed in place.
    pub fn as_mut_slice(&mut self) -> (r: &mut [T])
        ensures
            r@ == old(self)@,
            final(self)@ == final(r)@,
    {
        &mut *self.items
    }

    /// An iterator over the elements, first to last.
    pub fn iter(&self) -> (r: std::slice::Iter<'_, T>)
        ensures
            into_iter_elts(r) == self@,
    {
        broadcast use vstd::std_specs::slice::axiom_spec_slice_iter;
        self.items.iter()
    }
}

impl<'a, T> Default for CVecRef<'a, T> {
    /// An empty view with no capacity.
    fn default() -> (r: Self)
        ensures
            r@ == Seq::<T>::empty(),
            r.reserved() == 0,
    {
        CVecRef { items: &[], capacity: 0 }
    }
}

impl<'a, T> Default for CVecMutRef<'a, T> {
    /// An empty view with no capacity.
    fn default() -> (r: Self)
        ensures
            r@ == Seq::<T>::empty(),
            r.reserved() == 0,
    {
        CVecMutRef { items: &mut [], capacity: 0 }
    }
}

impl<'a, T> Default for CSliceRef<'a, T> {
    /// An empty view.
    fn default() -> (r: Self)
        ensures
            r@ == Seq::<T>::empty(),
    {
        CSliceRef { items: &[] }
    }
}

/// Two sequences are equal element by element, by the elements' `==`.
pub open spec fn elements_eq<T: PartialEqSpec>(a: Seq<T>, b: Seq<T>) -> bool {
    &&& a.len() == b.len()
    &&& forall|i: int| 0 <= i < a.len() ==> (#[trigger] a[i]).eq_spec(&b[i])
}

/// Compares two slices element by element, first to last.
fn slices_eq<T: PartialEq + PartialEqSpec>(a: &[T], b: &[T]) -> (r: bool)
    ensures
        T::obeys_eq_spec() ==> r == elements_eq(a@, b@),
{
    let n = a.len();
    if n != b.len() {
        return false;
    }
    let mut i: usize = 0;
    while i < n
        invariant
            n == a@.len(),
            n == b@.len(),
            i <= n,
            T::obeys_eq_spec() ==> forall|j: int| 0 <= j < i ==> (#[trigger] a@[j]).eq_spec(&b@[j]),
        decreases n - i,
    {
        if !(a[i] == b[i]) {
            return false;
        }
        i = i + 1;
    }
    true
}

impl<'a, T: PartialEq + PartialEqSpec> PartialEq for CVecRef<'a, T> {
    /// Whether the two views hold equal elements, capacity aside.
    fn eq(&self, other: &Self) -> (r: bool) {
        slices_eq(self.items, other.items)
    }
}

impl<'a, T: PartialEq + PartialEqSpec> PartialEqSpecImpl for CVecRef<'a, T> {
    open spec fn obeys_eq_spec() -> bool {
        T::obeys_eq_spec()
    }

    open spec fn eq_spec(&self, other: &Self) -> bool {
        elements_eq(self@, other@)
    }
}

impl<'a, T: PartialEq + PartialEqSpec> PartialEq for CVecMutRef<'a, T> {
    /// Whether the two views hold equal elements, capacity aside.
    fn eq(&self, other: &Self) -> (r: bool) {
        slices_eq(&*self.items, &*other.items)
    }
}

impl<'a, T: PartialEq + PartialEqSpec> PartialEqSpecImpl for CVecMutRef<'a, T> {
    open spec fn obeys_eq_spec() -> bool {
        T::obeys_eq_spec()
    }

    open spec fn eq_spec(&self, other: &Self) -> bool {
        elements_eq(self@, other@)
    }
}

impl<'a, T: PartialEq + PartialEqSpec> PartialEq for CSliceRef<'a, T> {
    /// Whether the two views hold equal elements.
    fn eq(&self, other: &Self) -> (r: bool) {
        slices_eq(self.items, other.items)
    }
}

impl<'a, T: PartialEq + PartialEqSpec> PartialEqSpecImpl for CSliceRef<'a, T> {
    open spec fn obeys_eq_spec() -> bool {
        T::obeys_eq_spec()
    }

    open spec fn eq_spec(&self, other: &Self) -> bool {
        elements_eq(self@, other@)
    }
}

impl<'a, T: PartialEq + PartialEqSpec> PartialEq for CSliceMutRef<'a, T> {
    /// Whether the two views hold equal elements.
    fn eq(&self, other: &Self) -> (r: bool) {
        slices_eq(&*self.items, &*other.items)
    }
}

impl<'a, T: PartialEq + PartialEqSpec> PartialEqSpecImpl for CSliceMutRef<'a, T> {
    open spec fn obeys_eq_spec() -> bool {
        T::obeys_eq_spec()
    }

    open spec fn eq_spec(&self, other: &Self) -> bool {
        elements_eq(self@, other@)
    }
}

impl<T: Clone> Clone for CVec<T> {
    /// A copy of each element, in order, sized to the length.
    fn clone(&self) -> (r: Self)
        ensures
            r@.len() == self@.len(),
            forall|i: int| 0 <= i < self@.len() ==> cloned::<T>(self@[i], #[trigger] r@[i]),
            r.reserved() == sized_capacity::<T>(self@.len()),
    {
        let items = self.items.clone();
        let capacity = if is_zero_sized::<T>() { usize::MAX } else { items.len() };
        CVec { items, capacity }
    }
}

impl<T: Clone> Clone for CSlice<T> {
    /// A copy of each element, in order.
    fn clone(&self) -> (r: Self)
        ensures
            r@.len() == self@.len(),
            forall|i: int| 0 <= i < self@.len() ==> cloned::<T>(self@[i], #[trigger] r@[i]),
    {
        CSlice { items: self.items.clone() }
    }
}

impl<T: Eq + PartialEqSpec> Eq for CVec<T> {}

impl<T: Eq + PartialEqSpec> Eq for CSlice<T> {}

impl<'a, T: Eq + PartialEqSpec> Eq for CVecRef<'a, T> {}

impl<'a, T: Eq + PartialEqSpec> Eq for CVecMutRef<'a, T> {}

impl<'a, T: Eq + PartialEqSpec> Eq for CSliceRef<'a, T> {}

impl<'a, T: Eq + PartialEqSpec> Eq for CSliceMutRef<'a, T> {}

} // verus!
