//! Range normalization and bounds-checked sub-views of slices.
//!
//! Every supported way of writing a range of indices is first turned into an
//! [`IndexKind`], then normalized into one half-open `start..end` pair, and only
//! then checked against the length of the slice.

use core::ops::{Bound, Range, RangeFrom, RangeFull, RangeInclusive, RangeTo, RangeToInclusive};
use crate::message::decimal;
use vstd::prelude::*;

verus! {

/// `core::ops::Bound`, read by its public variants.
#[verifier::external_type_specification]
#[verifier::reject_recursive_types(T)]
pub struct ExBound<T>(Bound<T>);

/// `core::ops::RangeFrom`, read by its public field.
#[verifier::external_type_specification]
#[verifier::reject_recursive_types(Idx)]
pub struct ExRangeFrom<Idx>(RangeFrom<Idx>);

/// `core::ops::RangeTo`, read by its public field.
#[verifier::external_type_specification]
#[verifier::reject_recursive_types(Idx)]
pub struct ExRangeTo<Idx>(RangeTo<Idx>);

/// `core::ops::RangeToInclusive`, read by its public field.
#[verifier::external_type_specification]
#[verifier::reject_recursive_types(Idx)]
pub struct ExRangeToInclusive<Idx>(RangeToInclusive<Idx>);

/// `core::ops::RangeFull`, which holds nothing.
#[verifier::external_type_specification]
pub struct ExRangeFull(RangeFull);

/// Relies on `RangeInclusive::into_inner`: it hands back the lower and the
/// (inclusive) upper bound that the range holds.
pub assume_specification<Idx>[ RangeInclusive::<Idx>::into_inner ](
    range: RangeInclusive<Idx>,
) -> (r: (Idx, Idx))
    ensures
        r.0 == range@.start,
        r.1 == range@.end,
;

/// The ways of writing a range of indices into a slice, one variant each.
#[derive(Clone, Copy, Debug)]
pub enum IndexKind {
    /// `start..end`
    Range { start: usize, end: usize },
    /// `start..=end`
    RangeInc { start: usize, end: usize },
    /// `..`
    RangeFull,
    /// `start..`
    RangeFrom { start: usize },
    /// `..end`
    RangeTo { end: usize },
    /// `..=end`
    RangeToInc { end: usize },
    /// `(start, end)`, a pair of bounds
    BoundPair { start_bound: Bound<usize>, end_bound: Bound<usize> },
}

/// A range type that can select part of a slice.
pub trait RangeIndex: Sized {
    /// The variant of [`IndexKind`] that this value is.
    spec fn kind_spec(&self) -> IndexKind;

    /// Turns the range into its [`IndexKind`].
    fn kind(self) -> (r: IndexKind)
        ensures
            r == self.kind_spec(),
    ;
}

impl RangeIndex for Range<usize> {
    open spec fn kind_spec(&self) -> IndexKind {
        IndexKind::Range { start: self.start, end: self.end }
    }

    fn kind(self) -> (r: IndexKind) {
        IndexKind::Range { start: self.start, end: self.end }
    }
}

impl RangeIndex for RangeInclusive<usize> {
    open spec fn kind_spec(&self) -> IndexKind {
        IndexKind::RangeInc { start: self@.start, end: self@.end }
    }

    fn kind(self) -> (r: IndexKind) {
        let (start, end) = self.into_inner();
        IndexKind::RangeInc { start, end }
    }
}

impl RangeIndex for RangeFull {
    open spec fn kind_spec(&self) -> IndexKind {
        IndexKind::RangeFull
    }

    fn kind(self) -> (r: IndexKind) {
        IndexKind::RangeFull
    }
}

impl RangeIndex for RangeFrom<usize> {
    open spec fn kind_spec(&self) -> IndexKind {
        IndexKind::RangeFrom { start: self.start }
    }

    fn kind(self) -> (r: IndexKind) {
        IndexKind::RangeFrom { start: self.start }
    }
}

impl RangeIndex for RangeTo<usize> {
    open spec fn kind_spec(&self) -> IndexKind {
        IndexKind::RangeTo { end: self.end }
    }

    fn kind(self) -> (r: IndexKind) {
        IndexKind::RangeTo { end: self.end }
    }
}

impl RangeIndex for RangeToInclusive<usize> {
    open spec fn kind_spec(&self) -> IndexKind {
        IndexKind::RangeToInc { end: self.end }
    }

    fn kind(self) -> (r: IndexKind) {
        IndexKind::RangeToInc { end: self.end }
    }
}

impl RangeIndex for (Bound<usize>, Bound<usize>) {
    open spec fn kind_spec(&self) -> IndexKind {
        IndexKind::BoundPair { start_bound: self.0, end_bound: self.1 }
    }

    fn kind(self) -> (r: IndexKind) {
        IndexKind::BoundPair { start_bound: self.0, end_bound: self.1 }
    }
}

impl RangeIndex for IndexKind {
    open spec fn kind_spec(&self) -> IndexKind {
        *self
    }

    fn kind(self) -> (r: IndexKind) {
        self
    }
}

/// The first index that a lower bound admits, as a mathematical integer.
pub open spec fn lower_of(b: Bound<usize>) -> int {
    match b {
        Bound::Included(n) => n as int,
        Bound::Excluded(n) => n + 1,
        Bound::Unbounded => 0,
    }
}

/// The first index past an upper bound, as a mathematical integer.
pub open spec fn upper_of(b: Bound<usize>, len: usize) -> int {
    match b {
        Bound::Included(n) => n + 1,
        Bound::Excluded(n) => n as int,
        Bound::Unbounded => len as int,
    }
}

/// The half-open range `[start, end)` that `kind` denotes for a slice of length
/// `len`, before any check against `len` and with no limit on the integers.
pub open spec fn bounds_of(kind: IndexKind, len: usize) -> (int, int) {
    match kind {
        IndexKind::Range { start, end } => (start as int, end as int),
        IndexKind::RangeInc { start, end } => (start as int, end + 1),
        IndexKind::RangeFull => (0, len as int),
        IndexKind::RangeFrom { start } => (start as int, len as int),
        IndexKind::RangeTo { end } => (0, end as int),
        IndexKind::RangeToInc { end } => (0, end + 1),
        IndexKind::BoundPair { start_bound, end_bound } => (
            lower_of(start_bound),
            upper_of(end_bound, len),
        ),
    }
}

/// The canonical half-open range of `kind`, or `None` where one of its ends
/// does not fit in a `usize`.
pub open spec fn normalize(kind: IndexKind, len: usize) -> Option<(usize, usize)> {
    let (s, e) = bounds_of(kind, len);
    if s <= usize::MAX && e <= usize::MAX {
        Some((s as usize, e as usize))
    } else {
        None
    }
}

/// The canonical range of `kind` where it also lies within a slice of length `len`.
pub open spec fn checked_range(kind: IndexKind, len: usize) -> Option<(usize, usize)> {
    match normalize(kind, len) {
        Some((s, e)) => if s <= e && e <= len {
            Some((s, e))
        } else {
            None
        },
        None => None,
    }
}

/// The first index that a lower bound admits, where it fits in a `usize`.
fn lower_index(b: Bound<usize>) -> (r: Option<usize>)
    ensures
        r == (if lower_of(b) <= usize::MAX { Some(lower_of(b) as usize) } else { None::<usize> }),
{
    match b {
        Bound::Included(n) => Some(n),
        Bound::Excluded(n) => n.checked_add(1),
        Bound::Unbounded => Some(0),
    }
}

/// The first index past an upper bound, where it fits in a `usize`.
fn upper_index(b: Bound<usize>, len: usize) -> (r: Option<usize>)
    ensures
        r == (if upper_of(b, len) <= usize::MAX {
            Some(upper_of(b, len) as usize)
        } else {
            None::<usize>
        }),
{
    match b {
        Bound::Included(n) => n.checked_add(1),
        Bound::Excluded(n) => Some(n),
        Bound::Unbounded => Some(len),
    }
}

/// Normalizes any supported range into a half-open `start..end` range for a
/// slice of length `len`.
///
/// Returns `None` exactly when an inclusive or excluded bound cannot be moved
/// by one without overflow. Whether the result lies within `len` is not checked.
pub fn into_range<R: RangeIndex>(range: R, len: usize) -> (r: Option<Range<usize>>)
    ensures
        r is None <==> normalize(range.kind_spec(), len) is None,
        r is Some ==> normalize(range.kind_spec(), len) == Some((r->0.start, r->0.end)),
{
    let (start, end) = match range.kind() {
        IndexKind::Range { start, end } => (Some(start), Some(end)),
        IndexKind::RangeInc { start, end } => (Some(start), end.checked_add(1)),
        IndexKind::RangeFull => (Some(0), Some(len)),
        IndexKind::RangeFrom { start } => (Some(start), Some(len)),
        IndexKind::RangeTo { end } => (Some(0), Some(end)),
        IndexKind::RangeToInc { end } => (Some(0), end.checked_add(1)),
        IndexKind::BoundPair { start_bound, end_bound } => (
            lower_index(start_bound),
            upper_index(end_bound, len),
        ),
    };
    match (start, end) {
        (Some(start), Some(end)) => Some(Range { start, end }),
        _ => None,
    }
}

/// Why a range cannot select part of a slice, in the order in which it is checked.
#[derive(Clone, Copy, Debug, PartialEq, Eq)]
pub enum IndexError {
    /// A bound could not be moved by one without overflow.
    Overflow,
    /// The normalized range starts after it ends.
    OrderViolation { start: usize, end: usize },
    /// The normalized range ends past the end of the slice.
    EndOutOfRange { end: usize, len: usize },
}

/// The first check that `kind` fails for a slice of length `len`, if any:
/// overflow first, then the order of the ends, then the end against `len`.
pub open spec fn index_error(kind: IndexKind, len: usize) -> Option<IndexError> {
    match normalize(kind, len) {
        None => Some(IndexError::Overflow),
        Some((s, e)) => if s > e {
            Some(IndexError::OrderViolation { start: s, end: e })
        } else if e > len {
            Some(IndexError::EndOutOfRange { end: e, len })
        } else {
            None
        },
    }
}

/// The part of `slice` that `kind` selects, where it selects one.
pub open spec fn sub_view<T>(slice: Seq<T>, kind: IndexKind) -> Seq<T> {
    let (s, e) = checked_range(kind, slice.len() as usize).unwrap();
    slice.subrange(s as int, e as int)
}

/// Checks `index` against a slice of length `len`, giving the canonical range
/// or the first check that fails.
fn check_range<I: RangeIndex>(index: I, len: usize) -> (r: Result<Range<usize>, IndexError>)
    ensures
        match index_error(index.kind_spec(), len) {
            Some(err) => r == Err::<Range<usize>, IndexError>(err),
            None => r is Ok && checked_range(index.kind_spec(), len) == Some(
                (r->Ok_0.start, r->Ok_0.end),
            ),
        },
{
    match into_range(index, len) {
        None => Err(IndexError::Overflow),
        Some(range) => if range.start > range.end {
            Err(IndexError::OrderViolation { start: range.start, end: range.end })
        } else if range.end > len {
            Err(IndexError::EndOutOfRange { end: range.end, len })
        } else {
            Ok(range)
        },
    }
}

/// The part of `slice` that `index` selects, or `None` where the range overflows,
/// starts after it ends, or ends past the end of `slice`.
pub fn slice_get<T, I: RangeIndex>(slice: &[T], index: I) -> (r: Option<&[T]>)
    ensures
        r is None <==> checked_range(index.kind_spec(), slice@.len() as usize) is None,
        r is Some ==> r->0@ == sub_view(slice@, index.kind_spec()),
{
    match check_range(index, slice.len()) {
        Ok(range) => {
            let (_, tail) = slice.split_at(range.start);
            let (view, _) = tail.split_at(range.end - range.start);
            Some(view)
        },
        Err(_) => None,
    }
}

/// The part of `slice` that `index` selects, or the reason why it selects none.
pub fn slice_try_index<T, I: RangeIndex>(slice: &[T], index: I) -> (r: Result<&[T], IndexError>)
    ensures
        match index_error(index.kind_spec(), slice@.len() as usize) {
            Some(err) => r == Err::<&[T], IndexError>(err),
            None => r is Ok && r->Ok_0@ == sub_view(slice@, index.kind_spec()),
        },
{
    match check_range(index, slice.len()) {
        Ok(range) => {
            let (_, tail) = slice.split_at(range.start);
            let (view, _) = tail.split_at(range.end - range.start);
            Ok(view)
        },
        Err(err) => Err(err),
    }
}

/// The part of `slice` that `index` selects, which the caller knows to be valid.
pub fn slice_index<T, I: RangeIndex>(slice: &[T], index: I) -> (r: &[T])
    requires
        index_error(index.kind_spec(), slice@.len() as usize) is None,
    ensures
        r@ == sub_view(slice@, index.kind_spec()),
{
    match slice_try_index(slice, index) {
        Ok(view) => view,
        Err(_) => unreached(),
    }
}

/// The part of `slice` that `index` selects, borrowed mutably, or `None` where
/// the range overflows, starts after it ends, or ends past the end of `slice`.
/// What is written through the view is written to `slice`.
pub fn slice_get_mut<T, I: RangeIndex>(slice: &mut [T], index: I) -> (r: Option<&mut [T]>)
    ensures
        r is None <==> checked_range(index.kind_spec(), old(slice)@.len() as usize) is None,
        r is None ==> final(slice)@ == old(slice)@,
        r is Some ==> ({
            let (s, e) = checked_range(index.kind_spec(), old(slice)@.len() as usize).unwrap();
            &&& r->0@ == sub_view(old(slice)@, index.kind_spec())
            &&& final(slice)@ == old(slice)@.subrange(0, s as int) + final(r->0)@
                + old(slice)@.subrange(e as int, old(slice)@.len() as int)
        }),
{
    match check_range(index, slice.len()) {
        Ok(range) => {
            let (_, tail) = slice.split_at_mut(range.start);
            let (view, _) = tail.split_at_mut(range.end - range.start);
            Some(view)
        },
        Err(_) => None,
    }
}

/// The part of `slice` that `index` selects, borrowed mutably, or the reason
/// why it selects none. What is written through the view is written to `slice`.
pub fn slice_try_index_mut<T, I: RangeIndex>(slice: &mut [T], index: I) -> (r: Result<
    &mut [T],
    IndexError,
>)
    ensures
        match index_error(index.kind_spec(), old(slice)@.len() as usize) {
            Some(err) => r == Err::<&mut [T], IndexError>(err) && final(slice)@ == old(slice)@,
            None => r is Ok && ({
                let (s, e) = checked_range(index.kind_spec(), old(slice)@.len() as usize).unwrap();
                &&& r->Ok_0@ == sub_view(old(slice)@, index.kind_spec())
                &&& final(slice)@ == old(slice)@.subrange(0, s as int) + final(r->Ok_0)@
                    + old(slice)@.subrange(e as int, old(slice)@.len() as int)
            }),
        },
{
    match check_range(index, slice.len()) {
        Ok(range) => {
            let (_, tail) = slice.split_at_mut(range.start);
            let (view, _) = tail.split_at_mut(range.end - range.start);
            Ok(view)
        },
        Err(err) => Err(err),
    }
}

/// The part of `slice` that `index` selects, borrowed mutably, which the caller
/// knows to be valid. What is written through the view is written to `slice`.
pub fn slice_index_mut<T, I: RangeIndex>(slice: &mut [T], index: I) -> (r: &mut [T])
    requires
        index_error(index.kind_spec(), old(slice)@.len() as usize) is None,
    ensures
        ({
            let (s, e) = checked_range(index.kind_spec(), old(slice)@.len() as usize).unwrap();
            &&& r@ == sub_view(old(slice)@, index.kind_spec())
            &&& final(slice)@ == old(slice)@.subrange(0, s as int) + final(r)@
                + old(slice)@.subrange(e as int, old(slice)@.len() as int)
        }),
{
    match slice_try_index_mut(slice, index) {
        Ok(view) => view,
        Err(_) => unreached(),
    }
}

/// A range selects a part of a slice exactly when no check fails on it.
pub proof fn lemma_get_agrees_with_index(kind: IndexKind, len: usize)
    ensures
        checked_range(kind, len) is Some <==> index_error(kind, len) is None,
{
}

/// Whatever form a range is written in, if its bounds denote `[s, e)` with
/// `s <= e <= len`, it selects exactly the elements `s..e` of a slice of length
/// `len`, both through `slice_get` and through `slice_index`.
pub proof fn lemma_any_form_selects_its_bounds<T>(slice: Seq<T>, kind: IndexKind, s: int, e: int)
    requires
        slice.len() <= usize::MAX,
        bounds_of(kind, slice.len() as usize) == (s, e),
        0 <= s <= e <= slice.len(),
    ensures
        checked_range(kind, slice.len() as usize) == Some((s as usize, e as usize)),
        index_error(kind, slice.len() as usize) is None,
        sub_view(slice, kind) == slice.subrange(s, e),
{
}

/// Two forms of a range that denote the same bounds select the same part of a
/// slice, or both select none for the same reason.
pub proof fn lemma_same_bounds_same_view<T>(slice: Seq<T>, a: IndexKind, b: IndexKind)
    requires
        slice.len() <= usize::MAX,
        bounds_of(a, slice.len() as usize) == bounds_of(b, slice.len() as usize),
    ensures
        checked_range(a, slice.len() as usize) == checked_range(b, slice.len() as usize),
        index_error(a, slice.len() as usize) == index_error(b, slice.len() as usize),
        checked_range(a, slice.len() as usize) is Some ==> sub_view(slice, a) == sub_view(slice, b),
{
}

/// The full range `..` selects the whole slice.
pub proof fn lemma_full_range_is_whole<T>(slice: Seq<T>)
    requires
        slice.len() <= usize::MAX,
    ensures
        checked_range(IndexKind::RangeFull, slice.len() as usize) == Some((0usize, slice.len() as usize)),
        sub_view(slice, IndexKind::RangeFull) == slice,
{
    assert(slice.subrange(0, slice.len() as int) =~= slice);
}

/// A range that starts after it ends selects nothing, and is reported as such
/// with both of its ends, before its end is held against the length.
pub proof fn lemma_order_violation(kind: IndexKind, len: usize, s: usize, e: usize)
    requires
        normalize(kind, len) == Some((s, e)),
        s > e,
    ensures
        checked_range(kind, len) is None,
        index_error(kind, len) == Some(IndexError::OrderViolation { start: s, end: e }),
        index_error(kind, len).unwrap().message_spec() == "slice index starts at "@ + decimal(
            s as nat,
        ) + " but ends at "@ + decimal(e as nat),
{
}

/// A range in order that ends past the length selects nothing, and is reported
/// with its end and the length.
pub proof fn lemma_end_out_of_range(kind: IndexKind, len: usize, s: usize, e: usize)
    requires
        normalize(kind, len) == Some((s, e)),
        s <= e,
        e > len,
    ensures
        checked_range(kind, len) is None,
        index_error(kind, len) == Some(IndexError::EndOutOfRange { end: e, len }),
        index_error(kind, len).unwrap().message_spec() == "range end index "@ + decimal(e as nat)
            + " is out of range for slice of length "@ + decimal(len as nat),
{
}

/// An inclusive bound at `usize::MAX` cannot be normalized: every form that
/// holds one fails with an overflow.
pub proof fn lemma_inclusive_max_overflows(start: usize, len: usize, other: Bound<usize>)
    ensures
        normalize(IndexKind::RangeInc { start, end: usize::MAX }, len) is None,
        normalize(IndexKind::RangeToInc { end: usize::MAX }, len) is None,
        normalize(
            IndexKind::BoundPair { start_bound: other, end_bound: Bound::Included(usize::MAX) },
            len,
        ) is None,
        normalize(
            IndexKind::BoundPair { start_bound: Bound::Excluded(usize::MAX), end_bound: other },
            len,
        ) is None,
        index_error(IndexKind::RangeInc { start, end: usize::MAX }, len) == Some(
            IndexError::Overflow,
        ),
        index_error(IndexKind::RangeToInc { end: usize::MAX }, len) == Some(IndexError::Overflow),
        index_error(
            IndexKind::BoundPair { start_bound: other, end_bound: Bound::Included(usize::MAX) },
            len,
        ) == Some(IndexError::Overflow),
        checked_range(IndexKind::RangeInc { start, end: usize::MAX }, len) is None,
        checked_range(IndexKind::RangeToInc { end: usize::MAX }, len) is None,
{
}

} // verus!
