//! A two-valued flag in the shape the raw allocator's interface expects.

use vstd::prelude::*;
use vstd::std_specs::convert::FromSpec;

verus! {

/// A boolean in the representation the raw allocator's interface uses.
///
/// `Boolean::False` stands for an inactive flag, `Boolean::True` for an
/// active one.  [`From<bool>`] gives the conversion from Rust's `bool`.
#[derive(Clone, Copy, Debug, PartialEq, Eq, Structural)]
pub enum Boolean {
    False,
    True,
}

impl From<bool> for Boolean {
    fn from(b: bool) -> (r: Self)
        ensures
            r == (if b {
                Boolean::True
            } else {
                Boolean::False
            }),
    {
        match b {
            false => Boolean::False,
            true => Boolean::True,
        }
    }
}

impl vstd::std_specs::convert::FromSpecImpl<bool> for Boolean {
    open spec fn obeys_from_spec() -> bool {
        true
    }

    open spec fn from_spec(b: bool) -> Boolean {
        if b {
            Boolean::True
        } else {
            Boolean::False
        }
    }
}

} // verus!
