//! CSV reporting of campaign results.

use vstd::prelude::*;
use vstd::string::StringExecFns;
use crate::campaign::{CampaignResult, ReportRow};

verus! {

/// The decimal digit character of `d`.
pub open spec fn digit_char(d: nat) -> char {
    ((d % 10) + 48) as char
}

/// Decimal notation of `n`, without leading zeros.
pub open spec fn decimal(n: nat) -> Seq<char>
    decreases n,
{
    if n < 10 {
        seq![digit_char(n)]
    } else {
        decimal(n / 10) + seq![digit_char(n % 10)]
    }
}

/// `true` or `false`.
pub open spec fn bool_text(b: bool) -> Seq<char> {
    if b {
        "true"@
    } else {
        "false"@
    }
}

/// The CSV header line.
pub open spec fn csv_header() -> Seq<char> {
    "fault_id,fault_kind,at_seq,detected,detection,latency_ms\n"@
}

/// The CSV line of one report row.
pub open spec fn csv_line(r: ReportRow) -> Seq<char> {
    decimal(r.0 as nat) + ","@ + decimal(r.1 as nat) + ","@ + decimal(r.2 as nat) + ","@
        + bool_text(r.3) + ","@ + r.4@ + ","@ + decimal(r.5 as nat) + "\n"@
}

/// The CSV lines of `rows`, in order.
pub open spec fn csv_lines(rows: Seq<ReportRow>) -> Seq<char>
    decreases rows.len(),
{
    if rows.len() == 0 {
        Seq::empty()
    } else {
        csv_lines(rows.drop_last()) + csv_line(rows.last())
    }
}

/// Decimal text of `v` (`format!("{}", v)`), which is its decimal notation
/// without leading zeros, as the standard library documents for integers.
#[verifier::external_body]
fn decimal_string(v: u64) -> (s: String)
    ensures
        s@ == decimal(v as nat),
{
    format!("{}", v)
}

/// `true` or `false`.
fn bool_str(b: bool) -> (s: &'static str)
    ensures
        s@ == bool_text(b),
{
    if b {
        "true"
    } else {
        "false"
    }
}

fn csv_row(r: &ReportRow) -> (s: String)
    ensures
        s@ == csv_line(*r),
{
    let mut s = decimal_string(r.0 as u64);
    s.append(",");
    s.append(decimal_string(r.1 as u64).as_str());
    s.append(",");
    s.append(decimal_string(r.2 as u64).as_str());
    s.append(",");
    s.append(bool_str(r.3));
    s.append(",");
    s.append(r.4);
    s.append(",");
    s.append(decimal_string(r.5).as_str());
    s.append("\n");
    proof {
        reveal_strlit(",");
        reveal_strlit("\n");
    }
    s
}

/// The CSV report: a header line, then one line per injected fault.
pub fn to_csv(res: &CampaignResult) -> (s: String)
    ensures
        s@ == csv_header() + csv_lines(res.rows@),
{
    let mut s = String::from_str("fault_id,fault_kind,at_seq,detected,detection,latency_ms\n");
    let mut i: usize = 0;
    while i < res.rows.len()
        invariant
            i <= res.rows@.len(),
            s@ == csv_header() + csv_lines(res.rows@.take(i as int)),
        decreases res.rows@.len() - i,
    {
        let line = csv_row(&res.rows[i]);
        s.append(line.as_str());
        proof {
            assert(res.rows@.take(i + 1).drop_last() =~= res.rows@.take(i as int));
        }
        i = i + 1;
    }
    assert(res.rows@.take(res.rows@.len() as int) =~= res.rows@);
    s
}

} // verus!
