//! Geometry and calling helpers shared by the widgets.

use vstd::prelude::*;

use core::cmp::Ordering;
use core::ops::Range;

verus! {

/// The start of a window of the given length centered on `mid`: `mid`
/// sits just right of the middle, as in `32 33 34 [35] 36 37 38` for
/// length 7.
pub open spec fn range_with_mid_spec(mid: int, len: int) -> (int, int) {
    if len == 0 {
        (mid, mid)
    } else {
        let start = mid - len / 2 - len % 2 + 1;
        (start, start + len)
    }
}

/// A window of the given length centered on `mid`.
pub fn range_with_mid(mid: isize, len: isize) -> (r: Range<isize>)
    requires
        0 <= mid,
        0 <= len,
        mid + len <= isize::MAX,
    ensures
        (r.start as int, r.end as int) == range_with_mid_spec(mid as int, len as int),
        len > 0 ==> r.start <= mid < r.end,
{
    if len == 0 {
        return mid..mid;
    }
    let start = mid - (len / 2) - (len % 2) + 1;
    start..(start + len)
}

/// Whether the signed value is below the unsigned one.
pub fn lt_iu(lhs: isize, rhs: usize) -> (r: bool)
    ensures
        r == ((lhs as int) < (rhs as int)),
{
    rhs > isize::MAX as usize || lhs < rhs as isize
}

/// Whether the signed value is above the unsigned one.
pub fn gt_iu(lhs: isize, rhs: usize) -> (r: bool)
    ensures
        r == ((lhs as int) > (rhs as int)),
{
    rhs < isize::MAX as usize && lhs > rhs as isize
}

/// The window shifted into the domain: same length, clamped at the
/// domain's near edge when it underflows and at the far edge when it
/// overflows.
pub open spec fn saturate_range_spec(vs: int, ve: int, ds: int, de: int) -> (int, int) {
    if vs < ds {
        (ds, ds + (ve - vs))
    } else if ve > de {
        (de - (ve - vs), de)
    } else {
        (vs, ve)
    }
}

/// Shifts the window into the domain, keeping its length.
pub fn saturate_range(value: Range<isize>, domain: Range<usize>) -> (r: Range<usize>)
    requires
        value.start <= value.end,
        domain.start <= domain.end,
        value.end - value.start <= domain.end - domain.start,
        value.end - value.start <= isize::MAX,
    ensures
        (r.start as int, r.end as int) == saturate_range_spec(
            value.start as int,
            value.end as int,
            domain.start as int,
            domain.end as int,
        ),
        r.end - r.start == value.end - value.start,
        domain.start <= r.start,
        r.end <= domain.end,
        value.start <= domain.start ==> r.start == domain.start,
        domain.end <= value.end ==> r.end == domain.end,
{
    let len = (value.end - value.start) as usize;
    if lt_iu(value.start, domain.start) {
        domain.start..(domain.start + len)
    } else if gt_iu(value.end, domain.end) {
        (domain.end - len)..domain.end
    } else {
        (value.start as usize)..(value.end as usize)
    }
}

/// The first index at which the comparer places the value strictly below
/// the element, assuming the vector is partitioned for that comparer;
/// `vec.len()` where no such index exists. Nothing more is promised of
/// the position, since the comparer is free code.
pub fn upper_bound<T, V, F: Fn(&V, &T) -> Ordering>(vec: &Vec<T>, value: &V, comp: F) -> (r:
    usize)
    requires
        forall|a: &V, b: &T| #[trigger] comp.requires((a, b)),
    ensures
        r <= vec.len(),
{
    let mut first: usize = 0;
    let mut count: usize = vec.len();
    while count > 0
        invariant
            first + count <= vec.len(),
            forall|a: &V, b: &T| #[trigger] comp.requires((a, b)),
        decreases count,
    {
        let step = count / 2;
        let i = first + step;
        match comp(value, &vec[i]) {
            Ordering::Less => {
                count = step;
            },
            _ => {
                first = i + 1;
                count = count - step - 1;
            },
        }
    }
    first
}

/// Calls a closure of no arguments.
pub fn call_nullary<T, F: Fn() -> T>(f: &F) -> (r: T)
    requires
        f.requires(()),
    ensures
        f.ensures((), r),
{
    f()
}

/// Calls a closure of one argument.
pub fn call_unary<T, U, F: Fn(T) -> U>(f: &F, arg: T) -> (r: U)
    requires
        f.requires((arg,)),
    ensures
        f.ensures((arg,), r),
{
    f(arg)
}

} // verus!
