//! The call-site descriptor: where and how large an allocation request was.

use vstd::prelude::*;

verus! {

/// Mathematical model of a [`CallSite`]: the file name as a sequence of
/// characters, plus the line number and requested byte count.
#[verifier::ext_equal]
pub ghost struct CallSiteView {
    pub source_name: Seq<char>,
    pub line: u64,
    pub requested_size: u64,
}

/// An immutable record of where and how large an allocation request was.
///
/// Captured once when the allocation request is made; a reallocation
/// replaces the whole descriptor with the reallocate call's own site.
/// The text is owned by the descriptor, never borrowed from the caller.
pub struct CallSite {
    /// Name of the source file that issued the request.
    pub source_name: String,
    /// Line number within that file.
    pub line: u64,
    /// Number of bytes the caller asked for.
    pub requested_size: u64,
}

impl View for CallSite {
    type V = CallSiteView;

    open spec fn view(&self) -> CallSiteView {
        CallSiteView {
            source_name: self.source_name@,
            line: self.line,
            requested_size: self.requested_size,
        }
    }
}

impl CallSite {
    /// Builds a descriptor from a file name, a line and a byte count.
    pub fn new(source_name: String, line: u64, requested_size: u64) -> (site: CallSite)
        ensures
            site@ == (CallSiteView {
                source_name: source_name@,
                line: line,
                requested_size: requested_size,
            }),
    {
        CallSite { source_name, line, requested_size }
    }
}

impl Clone for CallSite {
    fn clone(&self) -> (other: Self)
        ensures
            other@ == self@,
    {
        CallSite {
            source_name: self.source_name.clone(),
            line: self.line,
            requested_size: self.requested_size,
        }
    }
}

} // verus!
