//! From byte counts and seconds to throughput figures.

use vstd::prelude::*;

verus! {

/// Bytes in one mebibyte.
pub const MIB: u64 = 1_048_576;

/// What one task reports when it ends.
#[derive(Clone, Copy, Debug, PartialEq, Eq)]
pub struct TaskReport {
    pub id: u64,
    pub bytes_written: u64,
    /// The task's own running time, in whole seconds.
    pub elapsed_secs: u64,
}

/// Sum of the bytes that the tasks wrote.
pub open spec fn spec_total_bytes(reports: Seq<TaskReport>) -> nat
    decreases reports.len(),
{
    if reports.len() == 0 {
        0
    } else {
        spec_total_bytes(reports.drop_last()) + reports.last().bytes_written as nat
    }
}

/// Throughput in whole bytes per second.
pub open spec fn spec_bytes_per_sec(bytes: nat, secs: nat) -> nat
    recommends
        secs > 0,
{
    bytes / secs
}

/// Throughput in hundredths of a mebibyte per second, rounded to the
/// nearest hundredth, halves up.
pub open spec fn spec_centi_mib_per_sec(bytes: nat, secs: nat) -> nat
    recommends
        secs > 0,
{
    (bytes * 200 + secs * MIB as nat) / (2 * secs * MIB as nat)
}

/// The sum never shrinks when a report is left out at the end.
pub proof fn lemma_total_monotonic(reports: Seq<TaskReport>, n: int)
    requires
        0 <= n <= reports.len(),
    ensures
        spec_total_bytes(reports.take(n)) <= spec_total_bytes(reports),
    decreases reports.len(),
{
    if n == reports.len() {
        assert(reports.take(n) =~= reports);
    } else {
        assert(reports.drop_last().take(n) =~= reports.take(n));
        lemma_total_monotonic(reports.drop_last(), n);
    }
}

/// A sink that takes `rate` bytes in every second of a run of `secs`
/// seconds shows a throughput of exactly `rate`; so does any total that
/// lies less than one byte per second above it.
pub proof fn lemma_fixed_rate(rate: nat, secs: nat, total: nat)
    requires
        secs > 0,
        rate * secs <= total < (rate + 1) * secs,
    ensures
        spec_bytes_per_sec(rate * secs, secs) == rate,
        spec_bytes_per_sec(total, secs) == rate,
{
    vstd::arithmetic::div_mod::lemma_fundamental_div_mod_converse(
        (rate * secs) as int,
        secs as int,
        rate as int,
        0,
    );
    let r = total - rate * secs;
    assert(r < secs) by (nonlinear_arith)
        requires
            r == total - rate * secs,
            total < (rate + 1) * secs,
    ;
    vstd::arithmetic::div_mod::lemma_fundamental_div_mod_converse(
        total as int,
        secs as int,
        rate as int,
        r as int,
    );
}

/// Adds up what the tasks wrote.
///
/// `None` exactly when the sum does not fit in 64 bits.
pub fn total_bytes(reports: &[TaskReport]) -> (r: Option<u64>)
    ensures
        match r {
            Some(t) => t == spec_total_bytes(reports@),
            None => spec_total_bytes(reports@) > u64::MAX,
        },
{
    let mut total: u64 = 0;
    let mut i: usize = 0;
    assert(reports@.take(0) =~= Seq::<TaskReport>::empty());
    while i < reports.len()
        invariant
            i <= reports@.len(),
            total == spec_total_bytes(reports@.take(i as int)),
        decreases reports@.len() - i,
    {
        assert(reports@.take(i + 1).drop_last() =~= reports@.take(i as int));
        match total.checked_add(reports[i].bytes_written) {
            Some(t) => {
                total = t;
            },
            None => {
                proof {
                    lemma_total_monotonic(reports@, i + 1);
                }
                return None;
            },
        }
        i = i + 1;
    }
    assert(reports@.take(reports@.len() as int) =~= reports@);
    Some(total)
}

/// Throughput in whole bytes per second.
///
/// `None` exactly when `secs` is zero.
pub fn bytes_per_sec(bytes: u64, secs: u64) -> (r: Option<u64>)
    ensures
        r.is_some() <==> secs > 0,
        r matches Some(v) ==> v == spec_bytes_per_sec(bytes as nat, secs as nat),
{
    if secs == 0 {
        None
    } else {
        Some(bytes / secs)
    }
}

/// Throughput in whole mebibytes per second: the whole mebibytes written,
/// divided by the seconds.
///
/// `None` exactly when `secs` is zero.
pub fn mib_per_sec(bytes: u64, secs: u64) -> (r: Option<u64>)
    ensures
        r.is_some() <==> secs > 0,
        r matches Some(v) ==> v == (bytes as nat / MIB as nat) / secs as nat,
{
    if secs == 0 {
        None
    } else {
        Some(bytes / MIB / secs)
    }
}

/// Throughput in hundredths of a mebibyte per second, for a figure with two
/// decimals.
///
/// `None` exactly when `secs` is zero.
pub fn centi_mib_per_sec(bytes: u64, secs: u64) -> (r: Option<u64>)
    ensures
        r.is_some() <==> secs > 0,
        r matches Some(v) ==> v == spec_centi_mib_per_sec(bytes as nat, secs as nat),
{
    if secs == 0 {
        return None;
    }
    let num: u128 = (bytes as u128) * 200 + (secs as u128) * (MIB as u128);
    let den: u128 = 2 * (secs as u128) * (MIB as u128);
    let q: u128 = num / den;
    assert(q <= u64::MAX) by (nonlinear_arith)
        requires
            q == num / den,
            num == (bytes as u128) * 200 + (secs as u128) * 1_048_576,
            den == 2 * (secs as u128) * 1_048_576,
            bytes <= u64::MAX,
            secs >= 1,
    ;
    Some(q as u64)
}

/// The figure of a whole run: all bytes that the tasks wrote, over the
/// configured duration of the run and not over any task's own time.
///
/// `None` exactly when the duration is zero or the byte total does not fit
/// in 64 bits.
pub fn aggregate_throughput(reports: &[TaskReport], duration_secs: u64) -> (r: Option<u64>)
    ensures
        r.is_some() <==> (duration_secs > 0 && spec_total_bytes(reports@) <= u64::MAX),
        r matches Some(v) ==> v == spec_bytes_per_sec(
            spec_total_bytes(reports@),
            duration_secs as nat,
        ),
{
    match total_bytes(reports) {
        Some(total) => bytes_per_sec(total, duration_secs),
        None => None,
    }
}

} // verus!
