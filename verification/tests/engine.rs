use smartalloc::SmartAlloc;
use smartalloc::TrackError;

fn site(name: &str) -> String {
    name.to_string()
}

// An allocation that is freed again leaves nothing for the dump to report.
#[test]
fn free_alloc() {
    let mut alloc = SmartAlloc::new();
    alloc
        .record_allocation(0x1000, 8, site("src/lib.rs"), 246)
        .unwrap();
    alloc.record_free(0x1000).unwrap();
    let report = alloc.dump(true);
    assert_eq!(report.orphan_count, 0);
    assert_eq!(report.text, "");
}

#[test]
fn free_big_alloc() {
    let mut alloc = SmartAlloc::new();
    alloc
        .record_allocation(0x2000, 1 << 20, site("src/lib.rs"), 257)
        .unwrap();
    alloc.record_free(0x2000).unwrap();
    let report = alloc.dump(true);
    assert_eq!(report.orphan_count, 0);
    assert_eq!(report.text, "");
}

#[test]
fn free_zero_alloc() {
    let mut alloc = SmartAlloc::new();
    alloc
        .record_allocation_zeroed(0x3000, 1, 8, site("src/lib.rs"), 268)
        .unwrap();
    alloc.record_free(0x3000).unwrap();
    let report = alloc.dump(true);
    assert_eq!(report.orphan_count, 0);
    assert_eq!(report.text, "");
}

#[test]
fn free_zero_big_alloc() {
    let mut alloc = SmartAlloc::new();
    alloc
        .record_allocation_zeroed(0x4000, 1, 1 << 20, site("src/lib.rs"), 279)
        .unwrap();
    alloc.record_free(0x4000).unwrap();
    let report = alloc.dump(true);
    assert_eq!(report.orphan_count, 0);
    assert_eq!(report.text, "");
}

#[test]
fn free_realloc() {
    let mut alloc = SmartAlloc::new();
    alloc
        .record_allocation(0x5000, 8, site("src/lib.rs"), 290)
        .unwrap();
    alloc
        .record_reallocation(0x5000, 0x5800, 16, site("src/lib.rs"), 291)
        .unwrap();
    alloc.record_free(0x5800).unwrap();
    let report = alloc.dump(true);
    assert_eq!(report.orphan_count, 0);
    assert_eq!(report.text, "");
}

#[test]
fn free_big_realloc() {
    let mut alloc = SmartAlloc::new();
    alloc
        .record_allocation(0x6000, 1 << 20, site("src/lib.rs"), 302)
        .unwrap();
    alloc
        .record_reallocation(0x6000, 0x6800, 2 << 20, site("src/lib.rs"), 303)
        .unwrap();
    alloc.record_free(0x6800).unwrap();
    let report = alloc.dump(true);
    assert_eq!(report.orphan_count, 0);
    assert_eq!(report.text, "");
}

// A never-freed allocation is reported with its size, file and line.
#[test]
fn orphan_reported_with_site() {
    let mut alloc = SmartAlloc::new();
    alloc
        .record_allocation(0xAB00, 8, site("examples/orphan.rs"), 12)
        .unwrap();
    let report = alloc.dump(true);
    assert_eq!(report.orphan_count, 1);
    assert_eq!(
        report.text,
        "Orphaned buffer: 8 bytes allocated at line 12 of examples/orphan.rs\n"
    );
}

// Allocations made while static mode is on never appear in the report,
// even when they are never freed.
#[test]
fn static_mode_allocations_not_reported() {
    let mut alloc = SmartAlloc::new();
    alloc.set_static(true);
    assert!(alloc.is_static());
    alloc
        .record_allocation(0x100, 5, site("boot.rs"), 5)
        .unwrap();
    alloc
        .record_allocation(0x200, 48, site("boot.rs"), 5)
        .unwrap();
    alloc.set_static(false);
    assert!(!alloc.is_static());
    let report = alloc.dump(true);
    assert_eq!(report.orphan_count, 0);
    assert_eq!(report.text, "");
    assert!(!report.text.contains("boot.rs"));
    assert_eq!(alloc.live_count(), 2);
}

// Static-mode allocations are still validated on free.
#[test]
fn static_mode_allocations_still_checked() {
    let mut alloc = SmartAlloc::new();
    alloc.set_static(true);
    alloc.record_allocation(0x700, 5, site("boot.rs"), 9).unwrap();
    alloc.set_static(false);
    assert!(alloc.record_free(0x700).is_ok());
    assert!(matches!(
        alloc.record_free(0x700),
        Err(TrackError::UnknownPointer)
    ));
}

// Toggling the mode back does not reclassify entries already created.
#[test]
fn toggle_does_not_reclassify() {
    let mut alloc = SmartAlloc::new();
    alloc.set_static(true);
    alloc.record_allocation(0x900, 7, site("init.rs"), 3).unwrap();
    alloc.set_static(false);
    alloc.record_allocation(0xA00, 9, site("work.rs"), 4).unwrap();
    let report = alloc.dump(true);
    assert_eq!(report.orphan_count, 1);
    assert_eq!(
        report.text,
        "Orphaned buffer: 9 bytes allocated at line 4 of work.rs\n"
    );
}

// Freeing an address the table never saw signals UnknownPointer and
// leaves the table as it was.
#[test]
fn free_unknown_pointer() {
    let mut alloc = SmartAlloc::new();
    alloc
        .record_allocation(0xB00, 32, site("main.rs"), 77)
        .unwrap();
    let before = alloc.dump(true);
    assert!(matches!(
        alloc.record_free(0xDEAD),
        Err(TrackError::UnknownPointer)
    ));
    assert_eq!(alloc.live_count(), 1);
    let after = alloc.dump(true);
    assert_eq!(before.orphan_count, after.orphan_count);
    assert_eq!(before.text, after.text);
}

// Reallocating an unknown address signals UnknownPointer and changes
// nothing.
#[test]
fn realloc_unknown_pointer() {
    let mut alloc = SmartAlloc::new();
    assert_eq!(
        alloc.record_reallocation(0xDEAD, 0xBEEF, 64, site("main.rs"), 8),
        Err(TrackError::UnknownPointer)
    );
    assert_eq!(alloc.live_count(), 0);
}

// A reallocation keeps the live-entry count at one and reports the
// reallocate call's own site afterwards.
#[test]
fn realloc_updates_site_and_keeps_count() {
    let mut alloc = SmartAlloc::new();
    alloc
        .record_allocation(0xC00, 1 << 20, site("first.rs"), 10)
        .unwrap();
    alloc
        .record_reallocation(0xC00, 0xD00, 2 << 20, site("second.rs"), 20)
        .unwrap();
    assert_eq!(alloc.live_count(), 1);
    assert!(!alloc.is_live(0xC00));
    assert!(alloc.is_live(0xD00));
    let report = alloc.dump(true);
    assert_eq!(report.orphan_count, 1);
    assert_eq!(
        report.text,
        "Orphaned buffer: 2097152 bytes allocated at line 20 of second.rs\n"
    );
}

// A reallocation that stays at the same address is accepted.
#[test]
fn realloc_in_place() {
    let mut alloc = SmartAlloc::new();
    alloc
        .record_allocation(0xE00, 8, site("main.rs"), 3)
        .unwrap();
    alloc
        .record_reallocation(0xE00, 0xE00, 24, site("main.rs"), 4)
        .unwrap();
    assert_eq!(alloc.live_count(), 1);
    let report = alloc.dump(true);
    assert_eq!(
        report.text,
        "Orphaned buffer: 24 bytes allocated at line 4 of main.rs\n"
    );
}

// The allocator handing out an address that is already live is a fatal
// anomaly: the engine reports it and keeps the table unchanged.
#[test]
fn duplicate_address_on_allocation() {
    let mut alloc = SmartAlloc::new();
    alloc
        .record_allocation(0xF00, 8, site("main.rs"), 5)
        .unwrap();
    assert_eq!(
        alloc.record_allocation(0xF00, 16, site("main.rs"), 6),
        Err(TrackError::DuplicateAddress)
    );
    assert_eq!(alloc.live_count(), 1);
    let report = alloc.dump(true);
    assert_eq!(
        report.text,
        "Orphaned buffer: 8 bytes allocated at line 5 of main.rs\n"
    );
}

// Reallocating onto an address that is live elsewhere is the same anomaly.
#[test]
fn duplicate_address_on_reallocation() {
    let mut alloc = SmartAlloc::new();
    alloc
        .record_allocation(0x111, 8, site("main.rs"), 5)
        .unwrap();
    alloc
        .record_allocation(0x222, 8, site("main.rs"), 6)
        .unwrap();
    assert_eq!(
        alloc.record_reallocation(0x111, 0x222, 16, site("main.rs"), 7),
        Err(TrackError::DuplicateAddress)
    );
    assert_eq!(alloc.live_count(), 2);
}

// Dumping is read-only: two dumps with no intervening mutation are
// identical.
#[test]
fn dump_idempotent() {
    let mut alloc = SmartAlloc::new();
    alloc
        .record_allocation(0x123, 40, site("a.rs"), 1)
        .unwrap();
    alloc
        .record_allocation(0x456, 50, site("b.rs"), 2)
        .unwrap();
    let first = alloc.dump(true);
    let second = alloc.dump(true);
    assert_eq!(first.orphan_count, second.orphan_count);
    assert_eq!(first.text, second.text);
}

// A quiet dump still counts the orphans but emits no text.
#[test]
fn quiet_dump_counts_without_text() {
    let mut alloc = SmartAlloc::new();
    alloc
        .record_allocation(0x321, 8, site("a.rs"), 1)
        .unwrap();
    let report = alloc.dump(false);
    assert_eq!(report.orphan_count, 1);
    assert_eq!(report.text, "");
}

// The report lists survivors oldest first, by sequence, and skips freed
// entries.
#[test]
fn report_ordered_by_allocation_order() {
    let mut alloc = SmartAlloc::new();
    alloc.record_allocation(0x30, 1, site("a.rs"), 1).unwrap();
    alloc.record_allocation(0x20, 2, site("b.rs"), 2).unwrap();
    alloc.record_allocation(0x10, 3, site("c.rs"), 3).unwrap();
    alloc.record_free(0x20).unwrap();
    let report = alloc.dump(true);
    assert_eq!(report.orphan_count, 2);
    assert_eq!(
        report.text,
        "Orphaned buffer: 1 bytes allocated at line 1 of a.rs\n\
         Orphaned buffer: 3 bytes allocated at line 3 of c.rs\n"
    );
}

// An address freed and handed out again gets a fresh entry with a fresh
// sequence number.
#[test]
fn address_reuse_gets_fresh_sequence() {
    let mut alloc = SmartAlloc::new();
    let first = alloc.record_allocation(0x42, 8, site("a.rs"), 1).unwrap();
    alloc.record_free(0x42).unwrap();
    let second = alloc.record_allocation(0x42, 16, site("a.rs"), 2).unwrap();
    assert_eq!(first, 0);
    assert_eq!(second, 1);
    assert_eq!(alloc.next_sequence(), 2);
    let entries = alloc.snapshot();
    assert_eq!(entries.len(), 1);
    assert_eq!(entries[0].address, 0x42);
    assert_eq!(entries[0].sequence, 1);
    assert_eq!(entries[0].site.requested_size, 16);
}

// The snapshot lists entries in insertion order with their descriptors.
#[test]
fn snapshot_in_sequence_order() {
    let mut alloc = SmartAlloc::new();
    alloc.record_allocation(0x99, 4, site("x.rs"), 40).unwrap();
    alloc.record_allocation(0x88, 6, site("y.rs"), 50).unwrap();
    let entries = alloc.snapshot();
    assert_eq!(entries.len(), 2);
    assert_eq!(entries[0].address, 0x99);
    assert_eq!(entries[0].sequence, 0);
    assert_eq!(entries[0].site.source_name, "x.rs");
    assert_eq!(entries[0].site.line, 40);
    assert_eq!(entries[0].site.requested_size, 4);
    assert!(entries[0].traced);
    assert_eq!(entries[1].address, 0x88);
    assert_eq!(entries[1].sequence, 1);
    assert_eq!(entries[1].site.source_name, "y.rs");
}

// A zeroed allocation is recorded with count times element size bytes.
#[test]
fn zeroed_allocation_records_product() {
    let mut alloc = SmartAlloc::new();
    alloc
        .record_allocation_zeroed(0x77, 3, 16, site("z.rs"), 7)
        .unwrap();
    let report = alloc.dump(true);
    assert_eq!(
        report.text,
        "Orphaned buffer: 48 bytes allocated at line 7 of z.rs\n"
    );
}
