//! Assorted small verified utilities: a transparent box, slice splitting,
//! thunks passed and returned as values, an enum built from its variant
//! constructor, and a greeting trait with a hand-written implementation.

use vstd::prelude::*;

verus! {

/// A distance expressed in whole kilometres.
pub type Kilometers = i32;

/// A box that simply owns its value.
pub struct MyBox<T>(pub T);

impl<T> MyBox<T> {
    /// Wraps `x`.
    pub fn new(x: T) -> (r: MyBox<T>)
        ensures
            r.0 == x,
    {
        MyBox(x)
    }
}

/// Splits a slice at `mid`: the first part holds everything before `mid`,
/// the second everything from `mid` on.
pub fn split_at(slice: &[i32], mid: usize) -> (r: (&[i32], &[i32]))
    requires
        mid <= slice@.len(),
    ensures
        r.0@ == slice@.take(mid as int),
        r.1@ == slice@.skip(mid as int),
{
    let r = slice.split_at(mid);
    proof {
        assert(r.0@ =~= slice@.take(mid as int));
        assert(r.1@ =~= slice@.skip(mid as int));
    }
    r
}

/// Splits a mutable slice at `mid` into two disjoint mutable halves: reads
/// see the two parts of the original, and whatever is later written through
/// the parts is what the original slice ends up holding.
pub fn split_at_mut(slice: &mut [i32], mid: usize) -> (r: (&mut [i32], &mut [i32]))
    requires
        mid <= old(slice)@.len(),
    ensures
        r.0@ == old(slice)@.subrange(0, mid as int),
        r.1@ == old(slice)@.subrange(mid as int, old(slice)@.len() as int),
        final(slice)@ == final(r.0)@ + final(r.1)@,
{
    slice.split_at_mut(mid)
}

/// Runs a thunk: a deferred computation taken by value and invoked once.
pub fn takes_long_type<F: FnOnce() -> u64>(f: F) -> (r: u64)
    requires
        f.requires(()),
    ensures
        f.ensures((), r),
{
    f()
}

/// A thunk whose value is fixed in advance.
pub fn returns_long_type() -> (f: impl FnOnce() -> u64)
    ensures
        f.requires(()),
        forall|r: u64| f.ensures((), r) ==> r == 42,
{
    let f = || -> (r: u64)
        ensures
            r == 42,
        { 42 };
    f
}

/// Builds a thunk and immediately runs it.
pub fn type_alias_2() -> (r: u64)
    ensures
        r == 42,
{
    takes_long_type(returns_long_type())
}

/// A value that provably cannot take the other branch: the arm for `None`
/// is unreachable, which stands in for a diverging expression there.
pub fn never_type() -> (r: i32)
    ensures
        r == 1337,
{
    let o: Option<i32> = Some(1337);
    match o {
        Some(x) => x,
        None => vstd::pervasive::unreached(),
    }
}

/// A status read off a numbered input.
pub enum Status {
    Value(u32),
    Stop,
}

/// Builds one `Status::Value` per number below twenty: the variant
/// constructor acts as a plain function from number to instance.
pub fn enum_initializer() -> (r: Vec<Status>)
    ensures
        r@.len() == 20,
        forall|i: int| 0 <= i < 20 ==> (#[trigger] r@[i] matches Status::Value(v) && v == i),
{
    let mut out: Vec<Status> = Vec::new();
    let mut i: u32 = 0;
    while i < 20
        invariant
            i <= 20,
            out@.len() == i,
            forall|j: int| 0 <= j < i ==> (#[trigger] out@[j] matches Status::Value(v) && v == j),
        decreases 20 - i,
    {
        out.push(Status::Value(i));
        i = i + 1;
    }
    out
}

/// A function that adds one, handed back as a value.
pub fn returns_closure() -> (f: impl Fn(i32) -> i32)
    ensures
        forall|x: i32| x < i32::MAX ==> #[trigger] f.requires((x,)),
        forall|x: i32, r: i32| f.ensures((x,), r) ==> r == x + 1,
{
    let f = |x: i32| -> (r: i32)
        requires
            x < i32::MAX,
        ensures
            r == x + 1,
        { x + 1 };
    f
}

/// A type that can introduce itself.
pub trait HelloMacro {
    /// The type's greeting.
    fn hello_macro() -> String;
}

/// A breakfast, here only to greet.
pub struct Pancakes;

impl HelloMacro for Pancakes {
    fn hello_macro() -> (r: String)
        ensures
            r@ == "Hello, Macro! My name is Pancakes!"@,
    {
        "Hello, Macro! My name is Pancakes!".to_owned()
    }
}

/// The greeting of `Pancakes`, through its `HelloMacro` implementation.
pub fn derive_macro() -> (r: String)
    ensures
        r@ == "Hello, Macro! My name is Pancakes!"@,
{
    Pancakes::hello_macro()
}

} // verus!
