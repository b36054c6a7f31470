use vstd::prelude::*;

verus! {

/// A query for the summaries of the last `lastnl` ledger closes.
#[derive(Clone, Copy, Debug, PartialEq, Eq, Structural)]
pub struct LastLedgerRequest {
    pub lastnl: u32,
}

/// What a query returns for one ledger close: its timestamp and its two fee
/// averages written as decimals. The counts stay out of the response.
#[derive(Debug)]
pub struct StatsResponse {
    pub time_st: u64,
    pub avg_s: String,
    pub avg_c: String,
}

/// Where the window of the last `lastnl` of `len` records starts.
pub open spec fn window_start(len: int, lastnl: int) -> int {
    if lastnl >= len {
        0
    } else {
        len - lastnl
    }
}

/// The last `request.lastnl` records of `ledgers`, in their order, or all of
/// them where fewer are stored.
pub fn get_last<T>(ledgers: Vec<T>, request: &LastLedgerRequest) -> (r: Vec<T>)
    ensures
        r@ == ledgers@.subrange(
            window_start(ledgers@.len() as int, request.lastnl as int),
            ledgers@.len() as int,
        ),
        r@.len() == if (request.lastnl as int) < ledgers@.len() {
            request.lastnl as int
        } else {
            ledgers@.len() as int
        },
{
    let len = ledgers.len();
    let wanted = request.lastnl as usize;
    let start = if wanted >= len {
        0
    } else {
        len - wanted
    };
    let mut all = ledgers;
    all.split_off(start)
}

} // verus!
