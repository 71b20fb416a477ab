//! Rendering of the orphan report.
//!
//! One line is emitted per orphan candidate:
//! `Orphaned buffer: <size> bytes allocated at line <line> of <source_name>`.
//! The text of a report is pinned down, character for character, by the
//! spec functions here, so that two dumps of the same table are equal.

use vstd::prelude::*;

use crate::table::EntryView;

verus! {

/// The character for a single decimal digit.
pub open spec fn digit_char(d: nat) -> char {
    if d == 0 {
        '0'
    } else if d == 1 {
        '1'
    } else if d == 2 {
        '2'
    } else if d == 3 {
        '3'
    } else if d == 4 {
        '4'
    } else if d == 5 {
        '5'
    } else if d == 6 {
        '6'
    } else if d == 7 {
        '7'
    } else if d == 8 {
        '8'
    } else {
        '9'
    }
}

/// The decimal notation of `n`, most significant digit first, with no
/// leading zeroes (a single `'0'` for zero itself).
pub open spec fn dec_digits(n: nat) -> Seq<char>
    decreases n,
{
    if n < 10 {
        seq![digit_char(n)]
    } else {
        dec_digits(n / 10).push(digit_char(n % 10))
    }
}

/// The report line for one orphan candidate, newline included.
pub open spec fn line_for(e: EntryView) -> Seq<char> {
    "Orphaned buffer: "@ + dec_digits(e.site.requested_size as nat)
        + " bytes allocated at line "@ + dec_digits(e.site.line as nat) + " of "@
        + e.site.source_name + "\n"@
}

/// The full report for the given orphan candidates: their lines, in order.
pub open spec fn report_text(entries: Seq<EntryView>) -> Seq<char>
    decreases entries.len(),
{
    if entries.len() == 0 {
        Seq::empty()
    } else {
        line_for(entries[0]) + report_text(entries.drop_first())
    }
}

/// A report grows by one line when one more candidate is appended.
pub proof fn lemma_report_text_push(entries: Seq<EntryView>, e: EntryView)
    ensures
        report_text(entries.push(e)) == report_text(entries) + line_for(e),
    decreases entries.len(),
{
    let t = entries.push(e);
    if entries.len() == 0 {
        assert(t[0] == e);
        assert(t.drop_first() =~= Seq::<EntryView>::empty());
        assert(report_text(Seq::<EntryView>::empty()) =~= Seq::<char>::empty());
        assert(report_text(t) =~= report_text(entries) + line_for(e));
    } else {
        assert(t[0] == entries[0]);
        assert(t.drop_first() =~= entries.drop_first().push(e));
        lemma_report_text_push(entries.drop_first(), e);
        assert(report_text(t) =~= report_text(entries) + line_for(e));
    }
}

/// Appends one decimal digit to `out`.
fn append_digit(out: &mut String, d: u64)
    requires
        d < 10,
    ensures
        final(out)@ == old(out)@ + seq![digit_char(d as nat)],
{
    proof {
        reveal_strlit("0");
        reveal_strlit("1");
        reveal_strlit("2");
        reveal_strlit("3");
        reveal_strlit("4");
        reveal_strlit("5");
        reveal_strlit("6");
        reveal_strlit("7");
        reveal_strlit("8");
        reveal_strlit("9");
    }
    if d == 0 {
        out.append("0");
    } else if d == 1 {
        out.append("1");
    } else if d == 2 {
        out.append("2");
    } else if d == 3 {
        out.append("3");
    } else if d == 4 {
        out.append("4");
    } else if d == 5 {
        out.append("5");
    } else if d == 6 {
        out.append("6");
    } else if d == 7 {
        out.append("7");
    } else if d == 8 {
        out.append("8");
    } else {
        out.append("9");
    }
    assert(final(out)@ =~= old(out)@ + seq![digit_char(d as nat)]);
}

/// Appends the decimal notation of `n` to `out`.
pub fn append_decimal(out: &mut String, n: u64)
    ensures
        final(out)@ == old(out)@ + dec_digits(n as nat),
    decreases n,
{
    if n >= 10 {
        append_decimal(out, n / 10);
        append_digit(out, n % 10);
        proof {
            assert(dec_digits(n as nat) == dec_digits((n / 10) as nat).push(
                digit_char((n % 10) as nat),
            ));
            assert(final(out)@ =~= old(out)@ + dec_digits(n as nat));
        }
    } else {
        append_digit(out, n);
    }
}

} // verus!
