//! Rendering of the comparison result into the report's markdown body.

use vstd::prelude::*;

use crate::compare::{Comparison, ComparisonResult, ComparisonView, WorkflowComparisons,
    WorkflowComparisonsView, comparisons_view, entries_view};

verus! {

use vstd::string::{StringExecFns, StrSliceExecFns};

/// The decimal digit character of `d`.
pub open spec fn digit_char(d: int) -> char {
    if d == 0 {
        '0'
    } else if d == 1 {
        '1'
    } else if d == 2 {
        '2'
    } else if d == 3 {
        '3'
    } else if d == 4 {
        '4'
    } else if d == 5 {
        '5'
    } else if d == 6 {
        '6'
    } else if d == 7 {
        '7'
    } else if d == 8 {
        '8'
    } else {
        '9'
    }
}

/// The decimal digits of `n`, most significant first.
pub open spec fn dec_digits(n: int) -> Seq<char>
    recommends
        n >= 0,
    decreases n,
{
    if n < 10 {
        seq![digit_char(n)]
    } else {
        dec_digits(n / 10).push(digit_char(n % 10))
    }
}

/// A percentage carried in hundredths, rendered with a sign, two decimal
/// places and a percent sign.
pub open spec fn pct_text(p: int) -> Seq<char> {
    let m = if p < 0 {
        -p
    } else {
        p
    };
    let sign: Seq<char> = if p < 0 {
        "-"@
    } else {
        Seq::empty()
    };
    sign + dec_digits(m / 100) + "."@ + seq![
        digit_char((m % 100) / 10),
        digit_char((m % 100) % 10),
    ] + "%"@
}

/// What `humantime::format_duration` renders for a whole number of seconds.
pub uninterp spec fn duration_text(secs: u64) -> Seq<char>;

/// Relies on humantime::format_duration: rendering a duration of whole
/// seconds (splitting it into years, months, days, hours, minutes and
/// seconds) depends on the seconds alone; a zero duration renders as "0s",
/// and the rendering is never empty.
#[verifier::external_body]
pub(crate) fn format_duration_secs(secs: u64) -> (r: String)
    ensures
        r@ == duration_text(secs),
        secs == 0 ==> r@ == "0s"@,
        r@.len() > 0,
{
    humantime::format_duration(std::time::Duration::from_secs(secs)).to_string()
}

/// One table row of the report: job name, both runtimes, and the delta.
pub open spec fn row_text(c: ComparisonView) -> Seq<char> {
    "| "@ + c.job_name + " | "@ + duration_text(c.base_runtime_seconds) + " | "@
        + duration_text(c.candidate_runtime_seconds) + " | "@ + pct_text(
        c.runtime_difference_pct_hundredths,
    ) + " |\n"@
}

/// The table rows of a workflow's comparisons, in order.
pub open spec fn rows_text(cs: Seq<ComparisonView>) -> Seq<char>
    decreases cs.len(),
{
    if cs.len() == 0 {
        Seq::empty()
    } else {
        rows_text(cs.drop_last()) + row_text(cs.last())
    }
}

/// One workflow section of the report: heading, table header, and rows.
pub open spec fn workflow_text(e: WorkflowComparisonsView) -> Seq<char> {
    "#### Workflow: "@ + e.workflow_name + "\n\n"@
        + "| Job Name | Base Runtime | PR Runtime | Runtime Difference (%) |\n"@
        + "|---|---|---|---|\n"@ + rows_text(e.comparisons) + "\n"@
}

/// The workflow sections of the report, in result order.
pub open spec fn workflows_text(es: Seq<WorkflowComparisonsView>) -> Seq<char>
    decreases es.len(),
{
    if es.len() == 0 {
        Seq::empty()
    } else {
        workflows_text(es.drop_last()) + workflow_text(es.last())
    }
}

/// The digit string of `d`.
fn digit_str(d: u128) -> (r: &'static str)
    requires
        d < 10,
    ensures
        r@ == seq![digit_char(d as int)],
{
    let r: &'static str = if d == 0 {
        "0"
    } else if d == 1 {
        "1"
    } else if d == 2 {
        "2"
    } else if d == 3 {
        "3"
    } else if d == 4 {
        "4"
    } else if d == 5 {
        "5"
    } else if d == 6 {
        "6"
    } else if d == 7 {
        "7"
    } else if d == 8 {
        "8"
    } else {
        "9"
    };
    proof {
        reveal_strlit("0");
        reveal_strlit("1");
        reveal_strlit("2");
        reveal_strlit("3");
        reveal_strlit("4");
        reveal_strlit("5");
        reveal_strlit("6");
        reveal_strlit("7");
        reveal_strlit("8");
        reveal_strlit("9");
        assert(r@ =~= seq![digit_char(d as int)]);
    }
    r
}

/// Renders `n` in decimal.
pub fn dec_str(n: u128) -> (r: String)
    ensures
        r@ == dec_digits(n as int),
    decreases n,
{
    if n < 10 {
        String::from_str(digit_str(n))
    } else {
        let mut s = dec_str(n / 10);
        s.append(digit_str(n % 10));
        proof {
            assert(s@ =~= dec_digits(n as int));
        }
        s
    }
}

/// Renders a percentage carried in hundredths with two decimal places.
pub fn format_pct_hundredths(p: i128) -> (r: String)
    ensures
        r@ == pct_text(p as int),
{
    let mut s = String::new();
    let m: u128;
    if p < 0 {
        s.append("-");
        m = (-(p + 1)) as u128 + 1;
    } else {
        m = p as u128;
    }
    let whole = dec_str(m / 100);
    s.append(whole.as_str());
    s.append(".");
    let frac: u128 = m % 100;
    s.append(digit_str(frac / 10));
    s.append(digit_str(frac % 10));
    s.append("%");
    proof {
        assert(s@ =~= pct_text(p as int));
    }
    s
}

/// Renders one table row of the report.
fn format_row(c: &Comparison) -> (r: String)
    ensures
        r@ == row_text(c@),
{
    let mut s = String::from_str("| ");
    s.append(c.job_name.as_str());
    s.append(" | ");
    let base_runtime = format_duration_secs(c.base_runtime_seconds);
    s.append(base_runtime.as_str());
    s.append(" | ");
    let candidate_runtime = format_duration_secs(c.candidate_runtime_seconds);
    s.append(candidate_runtime.as_str());
    s.append(" | ");
    let pct = format_pct_hundredths(c.runtime_difference_pct_hundredths);
    s.append(pct.as_str());
    s.append(" |\n");
    proof {
        assert(s@ =~= row_text(c@));
    }
    s
}

/// Renders the table rows of one workflow's comparisons.
fn format_rows(comps: &Vec<Comparison>) -> (r: String)
    ensures
        r@ == rows_text(comparisons_view(comps@)),
{
    let ghost cv = comparisons_view(comps@);
    let mut s = String::new();
    proof {
        assert(cv.take(0) =~= Seq::<ComparisonView>::empty());
    }
    let mut i: usize = 0;
    while i < comps.len()
        invariant
            i <= comps.len(),
            cv == comparisons_view(comps@),
            s@ == rows_text(cv.take(i as int)),
        decreases comps.len() - i,
    {
        proof {
            assert(cv.take(i as int + 1).drop_last() =~= cv.take(i as int));
            assert(cv.take(i as int + 1).last() == comps@[i as int]@);
        }
        let row = format_row(&comps[i]);
        s.append(row.as_str());
        i = i + 1;
    }
    proof {
        assert(cv.take(comps.len() as int) =~= cv);
    }
    s
}

/// Renders one workflow section of the report.
fn format_workflow(e: &WorkflowComparisons) -> (r: String)
    ensures
        r@ == workflow_text(e@),
{
    let mut s = String::from_str("#### Workflow: ");
    s.append(e.workflow_name.as_str());
    s.append("\n\n");
    s.append("| Job Name | Base Runtime | PR Runtime | Runtime Difference (%) |\n");
    s.append("|---|---|---|---|\n");
    let rows = format_rows(&e.comparisons);
    s.append(rows.as_str());
    s.append("\n");
    proof {
        assert(s@ =~= workflow_text(e@));
    }
    s
}

/// Renders every workflow section of the comparison result, in order.
pub fn format_result(result: &ComparisonResult) -> (r: String)
    ensures
        r@ == workflows_text(result@),
{
    let ghost ev = entries_view(result.entries@);
    let mut s = String::new();
    proof {
        assert(ev.take(0) =~= Seq::<WorkflowComparisonsView>::empty());
    }
    let mut i: usize = 0;
    while i < result.entries.len()
        invariant
            i <= result.entries.len(),
            ev == entries_view(result.entries@),
            s@ == workflows_text(ev.take(i as int)),
        decreases result.entries.len() - i,
    {
        proof {
            assert(ev.take(i as int + 1).drop_last() =~= ev.take(i as int));
            assert(ev.take(i as int + 1).last() == result.entries@[i as int]@);
        }
        let section = format_workflow(&result.entries[i]);
        s.append(section.as_str());
        i = i + 1;
    }
    proof {
        assert(ev.take(result.entries.len() as int) =~= ev);
    }
    s
}

} // verus!
