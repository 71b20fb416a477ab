//! Laws of the tracking engine, stated over the table model and proved
//! once and for all.  Each law is phrased over the same spec functions the
//! engine's contracts use, so it composes directly with those contracts.

use vstd::prelude::*;

use crate::report::report_text;
use crate::table::EntryView;
use crate::table::addr_index;
use crate::table::contains_addr;
use crate::table::count_addr;
use crate::table::orphans;
use crate::table::unique_addresses;

verus! {

/// Counting an address over a table with a known first entry splits into
/// the head's contribution and the rest's.
proof fn lemma_count_addr_concat(e: EntryView, t: Seq<EntryView>, address: u64)
    ensures
        count_addr(seq![e] + t, address) == (if e.address == address {
            1nat
        } else {
            0nat
        }) + count_addr(t, address),
{
    let s = seq![e] + t;
    assert(s.len() > 0);
    assert(s[0] == e);
    assert(s.drop_first() =~= t);
}

/// No orphan candidate carries an address that no table entry has.
proof fn lemma_count_addr_orphans_zero(s: Seq<EntryView>, address: u64)
    requires
        forall|j: int| 0 <= j < s.len() ==> s[j].address != address,
    ensures
        count_addr(orphans(s), address) == 0,
    decreases s.len(),
{
    if s.len() > 0 {
        let d = s.drop_first();
        assert(forall|j: int| 0 <= j < d.len() ==> d[j].address != address);
        lemma_count_addr_orphans_zero(d, address);
        if s[0].traced {
            lemma_count_addr_concat(s[0], orphans(d), address);
        }
    }
}

/// Law: an allocation followed by a free of the same address restores the
/// table exactly.  A run of allocate-then-free pairs with no intervening
/// toggle therefore ends with the table it began with; started from an
/// empty table, a dump after the last free reports zero orphans (see
/// [`lemma_empty_table_reports_nothing`]).
pub proof fn lemma_allocate_then_free_restores(s: Seq<EntryView>, e: EntryView)
    requires
        !contains_addr(s, e.address),
    ensures
        contains_addr(s.push(e), e.address),
        addr_index(s.push(e), e.address) == s.len(),
        s.push(e).remove(s.len() as int) == s,
{
    let t = s.push(e);
    assert(t[s.len() as int].address == e.address);
    let i = addr_index(t, e.address);
    assert(0 <= i < t.len() && t[i].address == e.address);
    if i < s.len() {
        assert(s[i].address == e.address);
        assert(contains_addr(s, e.address));
    }
    assert(t.remove(s.len() as int) =~= s);
}

/// Law: an empty table yields an empty orphan report — no candidates, no
/// text.
pub proof fn lemma_empty_table_reports_nothing()
    ensures
        orphans(Seq::<EntryView>::empty()) == Seq::<EntryView>::empty(),
        report_text(orphans(Seq::<EntryView>::empty())) == Seq::<char>::empty(),
{
}

/// Law: an allocation recorded while tracking was active and still live
/// appears among the orphan candidates, and exactly one candidate carries
/// its address; its size and call site are reported as its own entry
/// holds them, since the candidate is that entry itself.
pub proof fn lemma_traced_entry_reported_once(s: Seq<EntryView>, i: int)
    requires
        unique_addresses(s),
        0 <= i < s.len(),
        s[i].traced,
    ensures
        orphans(s).contains(s[i]),
        count_addr(orphans(s), s[i].address) == 1,
    decreases s.len(),
{
    let address = s[i].address;
    let d = s.drop_first();
    if i == 0 {
        assert(forall|j: int| 0 <= j < d.len() ==> d[j].address != address);
        lemma_count_addr_orphans_zero(d, address);
        lemma_count_addr_concat(s[0], orphans(d), address);
        assert(orphans(s) == seq![s[0]] + orphans(d));
        assert(orphans(s)[0] == s[i]);
    } else {
        assert(unique_addresses(d));
        assert(d[i - 1] == s[i]);
        lemma_traced_entry_reported_once(d, i - 1);
        if s[0].traced {
            lemma_count_addr_concat(s[0], orphans(d), address);
            assert(s[0].address != address);
            let k = choose|k: int| 0 <= k < orphans(d).len() && orphans(d)[k] == s[i];
            assert((seq![s[0]] + orphans(d))[k + 1] == s[i]);
        }
    }
}

/// Law: an allocation recorded while tracking was suspended is never
/// reported as an orphan, even if it is never freed — no candidate
/// carries its address.
pub proof fn lemma_untraced_never_reported(s: Seq<EntryView>, i: int)
    requires
        unique_addresses(s),
        0 <= i < s.len(),
        !s[i].traced,
    ensures
        count_addr(orphans(s), s[i].address) == 0,
    decreases s.len(),
{
    let address = s[i].address;
    let d = s.drop_first();
    if i == 0 {
        assert(forall|j: int| 0 <= j < d.len() ==> d[j].address != address);
        lemma_count_addr_orphans_zero(d, address);
    } else {
        assert(unique_addresses(d));
        assert(d[i - 1] == s[i]);
        lemma_untraced_never_reported(d, i - 1);
        if s[0].traced {
            lemma_count_addr_concat(s[0], orphans(d), address);
            assert(s[0].address != address);
        }
    }
}

/// Law: the dump reports nothing that is not in the table.  Every orphan
/// candidate is a traced entry of the table itself, so each reported size
/// and call site is one a live allocation actually carries.
pub proof fn lemma_orphans_are_traced_entries(s: Seq<EntryView>)
    ensures
        forall|k: int| 0 <= k < orphans(s).len() ==> (#[trigger] orphans(s)[k]).traced,
        forall|k: int|
            0 <= k < orphans(s).len() ==> exists|i: int|
                0 <= i < s.len() && s[i] == #[trigger] orphans(s)[k],
    decreases s.len(),
{
    if s.len() > 0 {
        let d = s.drop_first();
        lemma_orphans_are_traced_entries(d);
        assert forall|k: int| 0 <= k < orphans(s).len() implies (#[trigger] orphans(s)[k]).traced
            && exists|i: int| 0 <= i < s.len() && s[i] == orphans(s)[k] by {
            if s[0].traced && k == 0 {
                assert(orphans(s) == seq![s[0]] + orphans(d));
                assert(orphans(s)[0] == s[0]);
            } else {
                let k0: int = if s[0].traced { k - 1 } else { k };
                assert(orphans(s)[k] == orphans(d)[k0]);
                assert(orphans(d)[k0].traced);
                let i0 = choose|i: int| 0 <= i < d.len() && d[i] == orphans(d)[k0];
                assert(d[i0] == s[i0 + 1]);
                assert(s[i0 + 1] == orphans(s)[k]);
            }
        }
    }
}

/// Law: a reallocation leaves the number of live entries unchanged — one
/// entry out, one entry in.  Together with the reallocation contract,
/// which inserts the entry with the reallocate call's own site, a single
/// live allocation stays a single live allocation across a resize.
pub proof fn lemma_reallocation_preserves_count(s: Seq<EntryView>, i: int, e: EntryView)
    requires
        0 <= i < s.len(),
    ensures
        s.remove(i).push(e).len() == s.len(),
{
}

} // verus!
