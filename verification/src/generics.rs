//! Small generic utilities: a pair constructor and three variants of a
//! "largest element" search over a slice, differing in their trait bounds.
//!
//! `PartialOrd` promises nothing about the order it implements, so the
//! contracts describe the result as the left-to-right fold that keeps the
//! current element whenever the comparison answers `Greater` — exactly what
//! the scans compute — rather than claiming a maximum. The guarantees hold
//! for every type whose comparison operators agree with its
//! `partial_cmp_spec`.

use core::cmp::Ordering;
use vstd::prelude::*;
use vstd::std_specs::cmp::PartialOrdSpec;

verus! {

/// Two values of the same type, kept together.
pub struct Pair<T> {
    pub x: T,
    pub y: T,
}

impl<T> Pair<T> {
    /// Packs `x` and `y` into a pair.
    pub fn new(x: T, y: T) -> (r: Self)
        ensures
            r.x == x,
            r.y == y,
    {
        Self { x, y }
    }
}

/// The index a left-to-right scan settles on: start at the first element and
/// move to each later element that compares strictly greater than the
/// current one.
pub open spec fn largest_index<T: PartialOrd>(s: Seq<T>) -> int
    recommends
        s.len() > 0,
    decreases s.len(),
{
    if s.len() <= 1 {
        0
    } else {
        let p = largest_index(s.drop_last());
        if s.last().partial_cmp_spec(&s[p]) == Some(Ordering::Greater) {
            s.len() - 1
        } else {
            p
        }
    }
}

/// The settled index is always in range.
pub proof fn lemma_largest_index_in_range<T: PartialOrd>(s: Seq<T>)
    requires
        s.len() > 0,
    ensures
        0 <= largest_index(s) < s.len(),
    decreases s.len(),
{
    if s.len() > 1 {
        lemma_largest_index_in_range(s.drop_last());
    }
}

/// The largest element of a non-empty slice of copyable values, by the
/// left-to-right scan.
pub fn largest<T: PartialOrd + Copy>(list: &[T]) -> (r: T)
    requires
        list@.len() > 0,
    ensures
        T::obeys_partial_cmp_spec() ==> r == list@[largest_index(list@)],
{
    let mut best = list[0];
    let mut i: usize = 1;
    proof {
        assert(list@.take(1).len() == 1);
        assert(list@.take(1)[0] == list@[0]);
    }
    while i < list.len()
        invariant
            1 <= i <= list@.len(),
            T::obeys_partial_cmp_spec() ==> best == list@.take(i as int)[largest_index(
                list@.take(i as int),
            )],
        decreases list@.len() - i,
    {
        proof {
            lemma_largest_index_in_range(list@.take(i as int));
        }
        let better = list[i] > best;
        if better {
            best = list[i];
        }
        proof {
            if T::obeys_partial_cmp_spec() {
                let cur = list@.take(i as int);
                let next = list@.take(i as int + 1);
                assert(next.drop_last() =~= cur);
                assert(next.last() == list@[i as int]);
                assert(next[largest_index(next)] == best);
            }
        }
        i = i + 1;
    }
    proof {
        assert(list@.take(list@.len() as int) =~= list@);
        lemma_largest_index_in_range(list@);
    }
    best
}

/// The same scan for clonable values: the chosen element is cloned once, at
/// the end, and the result is whatever `T::clone` returned on it.
pub fn largest_2<T: PartialOrd + Clone>(list: &[T]) -> (r: T)
    requires
        list@.len() > 0,
    ensures
        T::obeys_partial_cmp_spec() ==> call_ensures(
            <T as Clone>::clone,
            (&list@[largest_index(list@)],),
            r,
        ),
{
    let best = largest_3(list);
    best.clone()
}

/// The same scan, returning a reference into the slice instead of a copy.
pub fn largest_3<'a, T: PartialOrd>(list: &'a [T]) -> (r: &'a T)
    requires
        list@.len() > 0,
    ensures
        T::obeys_partial_cmp_spec() ==> *r == list@[largest_index(list@)],
{
    let mut index: usize = 0;
    let mut i: usize = 1;
    proof {
        assert(list@.take(1).len() == 1);
        assert(list@.take(1)[0] == list@[0]);
    }
    while i < list.len()
        invariant
            1 <= i <= list@.len(),
            index < i,
            T::obeys_partial_cmp_spec() ==> index as int == largest_index(list@.take(i as int)),
        decreases list@.len() - i,
    {
        proof {
            lemma_largest_index_in_range(list@.take(i as int));
        }
        let better = list[i] > list[index];
        if better {
            index = i;
        }
        proof {
            if T::obeys_partial_cmp_spec() {
                let cur = list@.take(i as int);
                let next = list@.take(i as int + 1);
                assert(next.drop_last() =~= cur);
                assert(next.last() == list@[i as int]);
            }
        }
        i = i + 1;
    }
    proof {
        assert(list@.take(list@.len() as int) =~= list@);
        lemma_largest_index_in_range(list@);
    }
    &list[index]
}

/// Every sized value can be passed through.
pub fn generic<T>(t: T) {
}

/// The `Sized` bound the compiler adds by default, written out.
pub fn generic2<T: Sized>(t: T) {
}

/// A possibly unsized value, reachable only behind a reference.
pub fn generic3<T: ?Sized>(t: &T) {
}

} // verus!
