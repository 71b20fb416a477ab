//! The allocation-tracking engine: Tracking Table, Mode Controller,
//! Consistency Checker and Orphan Reporter behind one structure.
//!
//! The engine never calls the raw allocator itself.  The caller forwards
//! each request to the allocator, then records the outcome here: the
//! address an allocation came back at, the address a free released, the
//! old and new addresses of a reallocation.  All state is in-process and
//! ephemeral.
//!
//! The table, the sequence counter and the mode flag are one shared ledger
//! for every allocation site of a process.  A host program that allocates
//! from several threads must serialize all calls on one engine value
//! through a single exclusive lock; the mode flag is global rather than
//! call-stack-scoped, so one context's disabled window also suppresses
//! tracking for allocations other contexts make concurrently.

use vstd::prelude::*;

use crate::report::line_for;
use crate::report::report_text;
use crate::report::append_decimal;
use crate::site::CallSite;
use crate::site::CallSiteView;
use crate::table::EntryView;
use crate::table::TrackingEntry;
use crate::table::addr_index;
use crate::table::contains_addr;
use crate::table::lemma_orphans_push;
use crate::table::orphans;
use crate::table::table_wf;
use crate::report::lemma_report_text_push;

verus! {

/// An anomaly found by the Consistency Checker.
#[derive(Clone, Copy, Debug, PartialEq, Eq, Structural)]
pub enum TrackError {
    /// A free or reallocate named an address the table does not hold:
    /// memory the engine never saw allocated, or a double free of memory
    /// already released.  The caller should report it and still forward
    /// the operation to the raw allocator.
    UnknownPointer,
    /// The raw allocator handed out an address the table still holds as
    /// live.  A correct allocator never does this; the caller should treat
    /// it as fatal, since tracking would be unreliable from here on.
    DuplicateAddress,
}

/// What a dump produced: the number of orphan candidates, and — when the
/// dump was verbose — one line of text per candidate.
pub struct DumpReport {
    /// How many tracked live allocations the table held.
    pub orphan_count: usize,
    /// The report text: empty when the dump was not verbose, otherwise one
    /// line per orphan candidate, oldest allocation first.
    pub text: String,
}

/// Mathematical model of a [`SmartAlloc`] engine.
#[verifier::ext_equal]
pub ghost struct EngineView {
    /// The Tracking Table, in insertion order.
    pub entries: Seq<EntryView>,
    /// The sequence number the next insertion will take.
    pub next_sequence: u64,
    /// Whether instrumentation is currently suspended.
    pub static_mode: bool,
}

/// The allocation-tracking engine.
///
/// It records each live allocation's call site, size and sequence number,
/// validates every free and reallocation against the table before changing
/// it, and reports whatever is still live on demand.  Addresses are opaque
/// handles: compared, never dereferenced.
pub struct SmartAlloc {
    entries: Vec<TrackingEntry>,
    next_sequence: u64,
    static_mode: bool,
}

impl View for SmartAlloc {
    type V = EngineView;

    closed spec fn view(&self) -> EngineView {
        EngineView {
            entries: self.entries@.map_values(|e: TrackingEntry| e@),
            next_sequence: self.next_sequence,
            static_mode: self.static_mode,
        }
    }
}

impl SmartAlloc {
    /// Well-formedness: addresses unique, sequence numbers strictly
    /// increasing in table order and all below the next one to assign.
    /// Established by [`SmartAlloc::new`] and preserved by every method.
    pub open spec fn wf(self) -> bool {
        table_wf(self@.entries, self@.next_sequence)
    }

    /// A fresh engine: empty table, sequence counter at zero, tracking
    /// active.
    pub fn new() -> (engine: SmartAlloc)
        ensures
            engine.wf(),
            engine@.entries == Seq::<EntryView>::empty(),
            engine@.next_sequence == 0,
            engine@.static_mode == false,
    {
        let engine = SmartAlloc { entries: Vec::new(), next_sequence: 0, static_mode: false };
        proof {
            assert(engine@.entries =~= Seq::<EntryView>::empty());
        }
        engine
    }

    /// Suspends (`true`) or resumes (`false`) the recording of new
    /// allocations.  Pure state toggle: existing entries keep the
    /// classification they were created with, and consistency checks
    /// still apply to allocations made while suspended.
    pub fn set_static(&mut self, enabled: bool)
        ensures
            final(self)@ == (EngineView { static_mode: enabled, ..old(self)@ }),
    {
        self.static_mode = enabled;
    }

    /// Whether instrumentation is currently suspended.
    pub fn is_static(&self) -> (enabled: bool)
        ensures
            enabled == self@.static_mode,
    {
        self.static_mode
    }

    /// The sequence number the next insertion will take.  Exposed so a
    /// caller can see that the counter has room before recording.
    pub fn next_sequence(&self) -> (next: u64)
        ensures
            next == self@.next_sequence,
    {
        self.next_sequence
    }

    /// How many allocations are currently live in the table.
    pub fn live_count(&self) -> (count: usize)
        ensures
            count == self@.entries.len(),
    {
        self.entries.len()
    }

    /// Whether the table currently holds `address` as live.
    pub fn is_live(&self, address: u64) -> (live: bool)
        ensures
            live == contains_addr(self@.entries, address),
    {
        self.find_index(address).is_some()
    }

    /// The index of the entry recording `address`, if any.
    fn find_index(&self, address: u64) -> (found: Option<usize>)
        ensures
            match found {
                Some(i) => i < self@.entries.len() && self@.entries[i as int].address == address,
                None => !contains_addr(self@.entries, address),
            },
    {
        let n = self.entries.len();
        let mut i: usize = 0;
        while i < n
            invariant
                i <= n,
                n == self@.entries.len(),
                forall|j: int| 0 <= j < i ==> self@.entries[j].address != address,
            decreases n - i,
        {
            if self.entries[i].address == address {
                return Some(i);
            }
            i = i + 1;
        }
        None
    }

    /// The index of an entry recording `address` at an index other than
    /// `skip`, if any.
    fn find_index_excluding(&self, address: u64, skip: usize) -> (found: Option<usize>)
        ensures
            match found {
                Some(i) => i < self@.entries.len() && i != skip && self@.entries[i as int].address
                    == address,
                None => forall|j: int|
                    0 <= j < self@.entries.len() && j != skip ==> self@.entries[j].address
                        != address,
            },
    {
        let n = self.entries.len();
        let mut i: usize = 0;
        while i < n
            invariant
                i <= n,
                n == self@.entries.len(),
                forall|j: int|
                    0 <= j < i && j != skip ==> self@.entries[j].address != address,
            decreases n - i,
        {
            if i != skip && self.entries[i].address == address {
                return Some(i);
            }
            i = i + 1;
        }
        None
    }

    /// Records a fresh allocation: `address` is what the raw allocator
    /// returned for a request of `size` bytes issued at line `line` of
    /// `source_name`.
    ///
    /// Assigns the next sequence number and inserts an entry that is
    /// traced exactly when tracking is active.  If the table already holds
    /// `address` as live, nothing changes and `DuplicateAddress` comes
    /// back: the allocator misbehaved, and the caller should treat that as
    /// fatal.
    pub fn record_allocation(
        &mut self,
        address: u64,
        size: u64,
        source_name: String,
        line: u64,
    ) -> (result: Result<u64, TrackError>)
        requires
            old(self).wf(),
            old(self)@.next_sequence < u64::MAX,
        ensures
            final(self).wf(),
            final(self)@.static_mode == old(self)@.static_mode,
            contains_addr(old(self)@.entries, address) ==> result == Err::<u64, TrackError>(
                TrackError::DuplicateAddress,
            ) && final(self)@ == old(self)@,
            !contains_addr(old(self)@.entries, address) ==> result == Ok::<u64, TrackError>(
                old(self)@.next_sequence,
            ) && final(self)@.next_sequence == old(self)@.next_sequence + 1 && final(self)@.entries == old(self)@.entries.push(
                EntryView {
                    address: address,
                    site: CallSiteView {
                        source_name: source_name@,
                        line: line,
                        requested_size: size,
                    },
                    sequence: old(self)@.next_sequence,
                    traced: !old(self)@.static_mode,
                },
            ),
    {
        match self.find_index(address) {
            Some(_) => Err(TrackError::DuplicateAddress),
            None => {
                let sequence = self.next_sequence;
                self.next_sequence = sequence + 1;
                let entry = TrackingEntry {
                    address: address,
                    site: CallSite::new(source_name, line, size),
                    sequence: sequence,
                    traced: !self.static_mode,
                };
                let ghost previous = self@.entries;
                self.entries.push(entry);
                proof {
                    assert(self@.entries =~= previous.push(entry@));
                }
                Ok(sequence)
            },
        }
    }

    /// Records a fresh zeroed allocation of `count` elements of
    /// `elem_size` bytes each; otherwise exactly like
    /// [`SmartAlloc::record_allocation`] with `count * elem_size` bytes.
    pub fn record_allocation_zeroed(
        &mut self,
        address: u64,
        count: u64,
        elem_size: u64,
        source_name: String,
        line: u64,
    ) -> (result: Result<u64, TrackError>)
        requires
            old(self).wf(),
            old(self)@.next_sequence < u64::MAX,
            count * elem_size <= u64::MAX,
        ensures
            final(self).wf(),
            final(self)@.static_mode == old(self)@.static_mode,
            contains_addr(old(self)@.entries, address) ==> result == Err::<u64, TrackError>(
                TrackError::DuplicateAddress,
            ) && final(self)@ == old(self)@,
            !contains_addr(old(self)@.entries, address) ==> result == Ok::<u64, TrackError>(
                old(self)@.next_sequence,
            ) && final(self)@.next_sequence == old(self)@.next_sequence + 1 && final(self)@.entries == old(self)@.entries.push(
                EntryView {
                    address: address,
                    site: CallSiteView {
                        source_name: source_name@,
                        line: line,
                        requested_size: (count * elem_size) as u64,
                    },
                    sequence: old(self)@.next_sequence,
                    traced: !old(self)@.static_mode,
                },
            ),
    {
        let size = count * elem_size;
        self.record_allocation(address, size, source_name, line)
    }

    /// Validates and records a free of `address`.
    ///
    /// If the table holds `address`, its entry is removed and returned;
    /// nothing else changes.  If not, the table is left untouched and
    /// `UnknownPointer` comes back: the caller should report the anomaly
    /// but still forward the free to the raw allocator.
    pub fn record_free(&mut self, address: u64) -> (result: Result<TrackingEntry, TrackError>)
        requires
            old(self).wf(),
        ensures
            final(self).wf(),
            final(self)@.next_sequence == old(self)@.next_sequence,
            final(self)@.static_mode == old(self)@.static_mode,
            !contains_addr(old(self)@.entries, address) ==> result == Err::<
                TrackingEntry,
                TrackError,
            >(TrackError::UnknownPointer) && final(self)@ == old(self)@,
            contains_addr(old(self)@.entries, address) ==> ({
                let i = addr_index(old(self)@.entries, address);
                &&& result matches Ok(entry) && entry@ == old(self)@.entries[i]
                &&& final(self)@.entries == old(self)@.entries.remove(i)
            }),
    {
        match self.find_index(address) {
            None => Err(TrackError::UnknownPointer),
            Some(i) => {
                let ghost previous = self@.entries;
                let entry = self.entries.remove(i);
                proof {
                    assert(self@.entries =~= previous.remove(i as int));
                    assert(addr_index(previous, address) == i as int);
                }
                Ok(entry)
            },
        }
    }

    /// Validates and records a reallocation: the allocation at
    /// `old_address` moved to `new_address` with `new_size` bytes, the
    /// reallocate call standing at line `line` of `source_name`.
    ///
    /// A successful reallocation removes the old entry and inserts a fresh
    /// one in a single step — a reader never sees the table in between —
    /// with the reallocate call's own site and a classification taken from
    /// the current mode.  If `old_address` is not live, nothing changes
    /// and `UnknownPointer` comes back; the caller should still forward
    /// the operation to the raw allocator.  If `new_address` is already
    /// live elsewhere in the table, nothing changes and `DuplicateAddress`
    /// comes back.
    pub fn record_reallocation(
        &mut self,
        old_address: u64,
        new_address: u64,
        new_size: u64,
        source_name: String,
        line: u64,
    ) -> (result: Result<u64, TrackError>)
        requires
            old(self).wf(),
            old(self)@.next_sequence < u64::MAX,
        ensures
            final(self).wf(),
            final(self)@.static_mode == old(self)@.static_mode,
            !contains_addr(old(self)@.entries, old_address) ==> result == Err::<u64, TrackError>(
                TrackError::UnknownPointer,
            ) && final(self)@ == old(self)@,
            contains_addr(old(self)@.entries, old_address) ==> ({
                let i = addr_index(old(self)@.entries, old_address);
                let remainder = old(self)@.entries.remove(i);
                &&& contains_addr(remainder, new_address) ==> result == Err::<u64, TrackError>(
                    TrackError::DuplicateAddress,
                ) && final(self)@ == old(self)@
                &&& !contains_addr(remainder, new_address) ==> result == Ok::<u64, TrackError>(
                    old(self)@.next_sequence,
                ) && final(self)@.next_sequence == old(self)@.next_sequence + 1 && final(self)@.entries == remainder.push(
                    EntryView {
                        address: new_address,
                        site: CallSiteView {
                            source_name: source_name@,
                            line: line,
                            requested_size: new_size,
                        },
                        sequence: old(self)@.next_sequence,
                        traced: !old(self)@.static_mode,
                    },
                )
            }),
    {
        match self.find_index(old_address) {
            None => Err(TrackError::UnknownPointer),
            Some(i) => {
                proof {
                    assert(addr_index(self@.entries, old_address) == i as int);
                }
                match self.find_index_excluding(new_address, i) {
                    Some(_) => {
                        proof {
                            lemma_remove_keeps_other(self@.entries, i as int, new_address);
                        }
                        Err(TrackError::DuplicateAddress)
                    },
                    None => {
                        let ghost previous = self@.entries;
                        let sequence = self.next_sequence;
                        self.next_sequence = sequence + 1;
                        self.entries.remove(i);
                        let entry = TrackingEntry {
                            address: new_address,
                            site: CallSite::new(source_name, line, new_size),
                            sequence: sequence,
                            traced: !self.static_mode,
                        };
                        self.entries.push(entry);
                        proof {
                            let remainder = previous.remove(i as int);
                            assert(self@.entries =~= remainder.push(entry@));
                            lemma_remove_keeps_other(previous, i as int, new_address);
                        }
                        Ok(sequence)
                    },
                }
            },
        }
    }

    /// Clones the current table, in sequence order, for inspection.
    pub fn snapshot(&self) -> (entries: Vec<TrackingEntry>)
        ensures
            entries@.len() == self@.entries.len(),
            forall|i: int| 0 <= i < entries@.len() ==> (#[trigger] entries@[i])@
                == self@.entries[i],
    {
        let n = self.entries.len();
        let mut out: Vec<TrackingEntry> = Vec::new();
        let mut i: usize = 0;
        while i < n
            invariant
                i <= n,
                n == self@.entries.len(),
                out@.len() == i,
                forall|j: int| 0 <= j < i ==> (#[trigger] out@[j])@ == self@.entries[j],
            decreases n - i,
        {
            out.push(self.entries[i].clone());
            i = i + 1;
        }
        out
    }

    /// The Orphan Reporter: counts the traced live allocations and, when
    /// `verbose`, renders one line per candidate, oldest first.
    ///
    /// Read-only: the table is not touched, and the result is a function
    /// of the engine's state alone, so repeated dumps with no intervening
    /// mutation are identical.
    pub fn dump(&self, verbose: bool) -> (report: DumpReport)
        ensures
            report.orphan_count == orphans(self@.entries).len(),
            verbose ==> report.text@ == report_text(orphans(self@.entries)),
            !verbose ==> report.text@ == Seq::<char>::empty(),
    {
        let n = self.entries.len();
        let mut count: usize = 0;
        let mut text = String::new();
        let mut i: usize = 0;
        while i < n
            invariant
                i <= n,
                n == self@.entries.len(),
                count == orphans(self@.entries.subrange(0, i as int)).len(),
                count <= i,
                verbose ==> text@ == report_text(orphans(self@.entries.subrange(0, i as int))),
                !verbose ==> text@ == Seq::<char>::empty(),
            decreases n - i,
        {
            let ghost seen = self@.entries.subrange(0, i as int);
            proof {
                assert(self@.entries.subrange(0, i + 1) =~= seen.push(self@.entries[i as int]));
                lemma_orphans_push(seen, self@.entries[i as int]);
            }
            if self.entries[i].traced {
                count = count + 1;
                if verbose {
                    proof {
                        lemma_report_text_push(orphans(seen), self@.entries[i as int]);
                    }
                    self.append_line(&mut text, i);
                }
            }
            i = i + 1;
        }
        proof {
            assert(self@.entries.subrange(0, n as int) =~= self@.entries);
        }
        DumpReport { orphan_count: count, text }
    }

    /// Appends the report line for the entry at `index` to `out`.
    fn append_line(&self, out: &mut String, index: usize)
        requires
            index < self@.entries.len(),
        ensures
            final(out)@ == old(out)@ + line_for(self@.entries[index as int]),
    {
        let entry = &self.entries[index];
        out.append("Orphaned buffer: ");
        append_decimal(out, entry.site.requested_size);
        out.append(" bytes allocated at line ");
        append_decimal(out, entry.site.line);
        out.append(" of ");
        out.append(entry.site.source_name.as_str());
        out.append("\n");
        assert(final(out)@ =~= old(out)@ + line_for(self@.entries[index as int]));
    }
}

/// An entry other than the one at `i` survives the removal of `i`:
/// membership of any other address is unchanged.
proof fn lemma_remove_keeps_other(s: Seq<EntryView>, i: int, address: u64)
    requires
        0 <= i < s.len(),
    ensures
        contains_addr(s.remove(i), address) <==> exists|j: int|
            0 <= j < s.len() && j != i && s[j].address == address,
{
    let r = s.remove(i);
    if contains_addr(r, address) {
        let k = choose|k: int| 0 <= k < r.len() && r[k].address == address;
        if k < i {
            assert(s[k].address == address);
        } else {
            assert(s[k + 1].address == address);
        }
    }
    if exists|j: int| 0 <= j < s.len() && j != i && s[j].address == address {
        let j = choose|j: int| 0 <= j < s.len() && j != i && s[j].address == address;
        if j < i {
            assert(r[j].address == address);
        } else {
            assert(r[j - 1].address == address);
        }
    }
}

} // verus!
