use vstd::prelude::*;

verus! {

/// A result that the contract of `f` allows for the argument `x`.
///
/// Where the contract allows no result at all, this is some value of which nothing is
/// known. Of an argument on which a call of `f` has come back, it allows one.
pub open spec fn image<X, B, F: FnMut(X) -> B>(f: F, x: X) -> B {
    choose|b: B| call_ensures(f, (x,), b)
}

/// For every argument, a result that the contract of `f` allows.
pub open spec fn image_of<X, B, F: FnMut(X) -> B>(f: F) -> spec_fn(X) -> B {
    |x: X| image(f, x)
}

/// `f` may be called on every value of `xs`.
pub open spec fn callable_all<X, B, F: FnMut(X) -> B>(f: F, xs: Seq<X>) -> bool {
    forall|i: int| 0 <= i < xs.len() ==> call_requires(f, (#[trigger] xs[i],))
}

/// Whatever `f` returns for `x` is `g(x)`.
pub open spec fn computes<X, B, F: FnMut(X) -> B>(f: F, g: spec_fn(X) -> B, x: X) -> bool {
    forall|b: B| #[trigger] call_ensures(f, (x,), b) ==> b == g(x)
}

/// `f` computes `g` on every value of `xs`.
pub open spec fn computes_all<X, B, F: FnMut(X) -> B>(
    f: F,
    g: spec_fn(X) -> B,
    xs: Seq<X>,
) -> bool {
    forall|i: int| 0 <= i < xs.len() ==> computes(f, g, #[trigger] xs[i])
}

} // verus!
