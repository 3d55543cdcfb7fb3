//! The lines that a run prints: one for each task and one for the total.

use crate::throughput::{
    centi_mib_per_sec, spec_centi_mib_per_sec, spec_total_bytes, total_bytes, TaskReport,
};
use vstd::prelude::*;
use vstd::string::StringExecFns;

verus! {

/// The text of one decimal digit.
pub open spec fn digit_text(d: nat) -> Seq<char>
    recommends
        d < 10,
{
    if d == 0 {
        "0"@
    } else if d == 1 {
        "1"@
    } else if d == 2 {
        "2"@
    } else if d == 3 {
        "3"@
    } else if d == 4 {
        "4"@
    } else if d == 5 {
        "5"@
    } else if d == 6 {
        "6"@
    } else if d == 7 {
        "7"@
    } else if d == 8 {
        "8"@
    } else {
        "9"@
    }
}

/// A number in decimal, without leading zeros.
pub open spec fn decimal_text(n: nat) -> Seq<char>
    decreases n,
{
    if n < 10 {
        digit_text(n)
    } else {
        decimal_text(n / 10) + digit_text(n % 10)
    }
}

/// A number of hundredths as a figure with two decimals.
pub open spec fn hundredths_text(centi: nat) -> Seq<char> {
    decimal_text(centi / 100) + "."@ + digit_text(centi % 100 / 10) + digit_text(centi % 10)
}

/// The line of one task.
pub open spec fn spec_task_line(id: nat, bytes: nat, centi_mib_per_sec: nat) -> Seq<char> {
    "Task "@ + decimal_text(id) + ": Written "@ + decimal_text(bytes) + " bytes, Throughput: "@
        + hundredths_text(centi_mib_per_sec) + " MiB/s"@
}

/// The line of the whole run.
pub open spec fn spec_total_line(bytes: nat, centi_mib_per_sec: nat) -> Seq<char> {
    "Total: Written "@ + decimal_text(bytes) + " bytes, Throughput: "@ + hundredths_text(
        centi_mib_per_sec,
    ) + " MiB/s"@
}

fn digit_str(d: u64) -> (s: &'static str)
    requires
        d < 10,
    ensures
        s@ == digit_text(d as nat),
{
    if d == 0 {
        "0"
    } else if d == 1 {
        "1"
    } else if d == 2 {
        "2"
    } else if d == 3 {
        "3"
    } else if d == 4 {
        "4"
    } else if d == 5 {
        "5"
    } else if d == 6 {
        "6"
    } else if d == 7 {
        "7"
    } else if d == 8 {
        "8"
    } else {
        "9"
    }
}

/// Appends `n` in decimal to `out`.
pub fn push_decimal(out: &mut String, n: u64)
    ensures
        final(out)@ == old(out)@ + decimal_text(n as nat),
    decreases n,
{
    if n >= 10 {
        push_decimal(out, n / 10);
    }
    out.append(digit_str(n % 10));
    assert(final(out)@ =~= old(out)@ + decimal_text(n as nat));
}

/// Appends a number of hundredths, as a figure with two decimals, to `out`.
pub fn push_hundredths(out: &mut String, centi: u64)
    ensures
        final(out)@ == old(out)@ + hundredths_text(centi as nat),
{
    push_decimal(out, centi / 100);
    out.append(".");
    out.append(digit_str(centi % 100 / 10));
    out.append(digit_str(centi % 10));
    assert(final(out)@ =~= old(out)@ + hundredths_text(centi as nat));
}

/// The line that reports one task: its number, its bytes and its
/// throughput, given in hundredths of a mebibyte per second.
pub fn task_line(id: u64, bytes: u64, centi_mib_per_sec: u64) -> (line: String)
    ensures
        line@ == spec_task_line(id as nat, bytes as nat, centi_mib_per_sec as nat),
{
    let mut line = String::from_str("Task ");
    push_decimal(&mut line, id);
    line.append(": Written ");
    push_decimal(&mut line, bytes);
    line.append(" bytes, Throughput: ");
    push_hundredths(&mut line, centi_mib_per_sec);
    line.append(" MiB/s");
    line
}

/// The line that reports the whole run.
pub fn total_line(bytes: u64, centi_mib_per_sec: u64) -> (line: String)
    ensures
        line@ == spec_total_line(bytes as nat, centi_mib_per_sec as nat),
{
    let mut line = String::from_str("Total: Written ");
    push_decimal(&mut line, bytes);
    line.append(" bytes, Throughput: ");
    push_hundredths(&mut line, centi_mib_per_sec);
    line.append(" MiB/s");
    line
}

/// The line for what one task reported, with the throughput over the
/// task's own running time.
///
/// `None` exactly when the task ran for less than a second.
pub fn task_report_line(report: &TaskReport) -> (line: Option<String>)
    ensures
        line.is_some() <==> report.elapsed_secs > 0,
        line matches Some(l) ==> l@ == spec_task_line(
            report.id as nat,
            report.bytes_written as nat,
            spec_centi_mib_per_sec(report.bytes_written as nat, report.elapsed_secs as nat),
        ),
{
    match centi_mib_per_sec(report.bytes_written, report.elapsed_secs) {
        Some(centi) => Some(task_line(report.id, report.bytes_written, centi)),
        None => None,
    }
}

/// The line for a whole run, with the throughput of all tasks together
/// over the configured duration of the run, whatever time each task took.
///
/// `None` exactly when the duration is zero or the byte total does not fit
/// in 64 bits.
pub fn run_total_line(reports: &[TaskReport], duration_secs: u64) -> (line: Option<String>)
    ensures
        line.is_some() <==> (duration_secs > 0 && spec_total_bytes(reports@) <= u64::MAX),
        line matches Some(l) ==> l@ == spec_total_line(
            spec_total_bytes(reports@),
            spec_centi_mib_per_sec(spec_total_bytes(reports@), duration_secs as nat),
        ),
{
    match total_bytes(reports) {
        Some(total) => match centi_mib_per_sec(total, duration_secs) {
            Some(centi) => Some(total_line(total, centi)),
            None => None,
        },
        None => None,
    }
}

} // verus!
