//! The load generator's choices: what each client asks of the server, and
//! which range of file numbers it uses.

use vstd::prelude::*;

verus! {

/// What a client does during a run.
#[derive(Copy, Clone, PartialEq, Eq, PartialOrd, Ord, Debug, Structural)]
pub enum Mode {
    /// Only uploads.
    Send,
    /// Only downloads.
    Receive,
    /// Uploads and downloads, drawn at random for each request.
    Mixed,
}

/// One request.
#[derive(Copy, Clone, PartialEq, Eq, Debug, Structural)]
pub enum Request {
    Upload,
    Download,
}

/// Files that one client can number in each second of a run.
pub const FILES_PER_SECOND: u128 = 1_000_000;

/// The next request of a client. In mixed mode the draw decides: an upload
/// where it came out above the mix ratio, a download otherwise.
pub fn next_request(mode: Mode, draw_above_ratio: bool) -> (r: Request)
    ensures
        r == match mode {
            Mode::Send => Request::Upload,
            Mode::Receive => Request::Download,
            Mode::Mixed => if draw_above_ratio {
                Request::Upload
            } else {
                Request::Download
            },
        },
{
    match mode {
        Mode::Send => Request::Upload,
        Mode::Receive => Request::Download,
        Mode::Mixed => if draw_above_ratio {
            Request::Upload
        } else {
            Request::Download
        },
    }
}

/// First file number of client `index`, where each of `parallel_clients`
/// clients gets a range wide enough for all of them over `duration_secs`.
pub open spec fn first_file_number(index: nat, parallel_clients: nat, duration_secs: nat) -> nat {
    index * (parallel_clients * FILES_PER_SECOND as nat * duration_secs)
}

/// The first file number of a client.
///
/// `None` exactly when it does not fit in 128 bits.
pub fn file_counter_start(index: u128, parallel_clients: u128, duration_secs: u64) -> (r: Option<
    u128,
>)
    ensures
        match r {
            Some(v) => v == first_file_number(
                index as nat,
                parallel_clients as nat,
                duration_secs as nat,
            ),
            None => first_file_number(index as nat, parallel_clients as nat, duration_secs as nat)
                > u128::MAX,
        },
{
    if index == 0 {
        assert(0 * (parallel_clients as nat * FILES_PER_SECOND as nat * duration_secs as nat) == 0)
            by (nonlinear_arith);
        return Some(0);
    }
    let ghost width = parallel_clients as nat * FILES_PER_SECOND as nat * duration_secs as nat;
    let per_second = match parallel_clients.checked_mul(FILES_PER_SECOND) {
        Some(v) => v,
        None => {
            if duration_secs == 0 {
                assert(width == 0) by (nonlinear_arith)
                    requires
                        width == parallel_clients as nat * FILES_PER_SECOND as nat
                            * duration_secs as nat,
                        duration_secs == 0,
                ;
                assert(index as nat * width == 0) by (nonlinear_arith)
                    requires
                        width == 0,
                ;
                return Some(0);
            }
            assert(index as nat * width > u128::MAX) by (nonlinear_arith)
                requires
                    width == parallel_clients as nat * FILES_PER_SECOND as nat
                        * duration_secs as nat,
                    parallel_clients as nat * FILES_PER_SECOND as nat > u128::MAX,
                    duration_secs >= 1,
                    index >= 1,
            ;
            return None;
        },
    };
    let range = match per_second.checked_mul(duration_secs as u128) {
        Some(v) => v,
        None => {
            assert(index as nat * width > u128::MAX) by (nonlinear_arith)
                requires
                    width > u128::MAX,
                    index >= 1,
            ;
            return None;
        },
    };
    index.checked_mul(range)
}

} // verus!
