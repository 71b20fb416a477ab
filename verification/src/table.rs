//! The Tracking Table's entries and their mathematical model.
//!
//! The table itself lives inside [`crate::engine::SmartAlloc`]; this module
//! holds the entry type and the spec-level vocabulary that every contract
//! uses: membership by address, the well-formedness of a table, and the
//! sequence of orphan candidates a dump reports.

use vstd::prelude::*;

use crate::site::CallSite;
use crate::site::CallSiteView;

verus! {

/// Mathematical model of a [`TrackingEntry`].
#[verifier::ext_equal]
pub ghost struct EntryView {
    pub address: u64,
    pub site: CallSiteView,
    pub sequence: u64,
    pub traced: bool,
}

/// One live allocation's record: its address, its call-site descriptor,
/// the sequence number assigned at insertion, and whether it was created
/// while instrumentation was active.
///
/// `address` is the value the raw allocator returned; it is the sole
/// identity used for lookup and is only ever compared, never dereferenced.
pub struct TrackingEntry {
    /// Base address of the allocation, as an opaque handle.
    pub address: u64,
    /// Where and how large the request was.
    pub site: CallSite,
    /// Position in the global allocation order; strictly increasing over
    /// insertions, never reused even when an address is.
    pub sequence: u64,
    /// Whether the entry was created while instrumentation was enabled.
    /// Entries created while it was suspended are still validated on free
    /// but never reported.
    pub traced: bool,
}

impl View for TrackingEntry {
    type V = EntryView;

    open spec fn view(&self) -> EntryView {
        EntryView {
            address: self.address,
            site: self.site@,
            sequence: self.sequence,
            traced: self.traced,
        }
    }
}

impl Clone for TrackingEntry {
    fn clone(&self) -> (other: Self)
        ensures
            other@ == self@,
    {
        TrackingEntry {
            address: self.address,
            site: self.site.clone(),
            sequence: self.sequence,
            traced: self.traced,
        }
    }
}

/// Whether some entry of `s` records the address `address`.
pub open spec fn contains_addr(s: Seq<EntryView>, address: u64) -> bool {
    exists|i: int| 0 <= i < s.len() && s[i].address == address
}

/// The index of the entry recording `address`.  Meaningful only when
/// `contains_addr(s, address)` holds; unambiguous when the addresses of
/// `s` are unique.
pub open spec fn addr_index(s: Seq<EntryView>, address: u64) -> int {
    choose|i: int| 0 <= i < s.len() && s[i].address == address
}

/// No two entries record the same address.
pub open spec fn unique_addresses(s: Seq<EntryView>) -> bool {
    forall|i: int, j: int|
        0 <= i < j < s.len() ==> s[i].address != s[j].address
}

/// Sequence numbers grow strictly in insertion order.
pub open spec fn sequences_increasing(s: Seq<EntryView>) -> bool {
    forall|i: int, j: int|
        0 <= i < j < s.len() ==> s[i].sequence < s[j].sequence
}

/// Every sequence number already assigned lies below `next`.
pub open spec fn sequences_below(s: Seq<EntryView>, next: u64) -> bool {
    forall|i: int| 0 <= i < s.len() ==> s[i].sequence < next
}

/// Well-formedness of a table whose next sequence number is `next`:
/// addresses unique, sequence numbers strictly increasing and all below
/// `next`.
pub open spec fn table_wf(s: Seq<EntryView>, next: u64) -> bool {
    &&& unique_addresses(s)
    &&& sequences_increasing(s)
    &&& sequences_below(s, next)
}

/// The orphan candidates of a table: its traced entries, in table order.
/// These are exactly the entries a verbose dump reports.
pub open spec fn orphans(s: Seq<EntryView>) -> Seq<EntryView>
    decreases s.len(),
{
    if s.len() == 0 {
        Seq::empty()
    } else if s[0].traced {
        seq![s[0]] + orphans(s.drop_first())
    } else {
        orphans(s.drop_first())
    }
}

/// How many entries of `s` record the address `address`.
pub open spec fn count_addr(s: Seq<EntryView>, address: u64) -> nat
    decreases s.len(),
{
    if s.len() == 0 {
        0
    } else if s[0].address == address {
        1 + count_addr(s.drop_first(), address)
    } else {
        count_addr(s.drop_first(), address)
    }
}

/// Appending an entry extends the orphan sequence by that entry when it is
/// traced and leaves the orphan sequence unchanged otherwise.
pub proof fn lemma_orphans_push(s: Seq<EntryView>, e: EntryView)
    ensures
        orphans(s.push(e)) == if e.traced {
            orphans(s).push(e)
        } else {
            orphans(s)
        },
    decreases s.len(),
{
    let t = s.push(e);
    if s.len() == 0 {
        assert(t[0] == e);
        assert(t.drop_first() =~= Seq::<EntryView>::empty());
        assert(orphans(Seq::<EntryView>::empty()) =~= Seq::<EntryView>::empty());
        if e.traced {
            assert(orphans(t) =~= seq![e] + orphans(t.drop_first()));
            assert(orphans(t) =~= orphans(s).push(e));
        } else {
            assert(orphans(t) =~= orphans(s));
        }
    } else {
        assert(t[0] == s[0]);
        assert(t.drop_first() =~= s.drop_first().push(e));
        lemma_orphans_push(s.drop_first(), e);
        if e.traced {
            assert(orphans(t) =~= orphans(s).push(e));
        } else {
            assert(orphans(t) =~= orphans(s));
        }
    }
}

} // verus!
