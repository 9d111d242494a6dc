//! Functions handed in by the caller, and what it means to know their
//! results.
//!
//! Sums, products and roots of real numbers are computed outside of this
//! library. Where an algorithm needs such a number in the middle of its work,
//! it takes a function that computes it. What the algorithm returns is then
//! stated for every oracle: a mathematical function that says what the
//! function handed in returns.
use vstd::prelude::*;

verus! {

/// Whether `oracle` says what the function `f` returns: whatever `f` may
/// return on an argument is the oracle's value there.
pub open spec fn answers<A, B, F: Fn(A) -> B>(f: F, oracle: spec_fn(A) -> B) -> bool {
    forall|x: A, y: B| #[trigger] call_ensures(f, (x,), y) ==> y == oracle(x)
}

/// Whether the function `f` may be called on every argument.
pub open spec fn accepts_all<A, B, F: Fn(A) -> B>(f: F) -> bool {
    forall|x: A| #[trigger] call_requires(f, (x,))
}

} // verus!
