use vstd::prelude::*;

use crate::numeric::{dec_digits, u64_to_dec};

verus! {

/// The height endpoint relative to the base address `b`.
pub open spec fn height_endpoint(b: Seq<char>) -> Seq<char> {
    b + "/height"@
}

/// The per-height worker endpoint relative to the base address `b`.
pub open spec fn worker_endpoint(b: Seq<char>, h: u64) -> Seq<char> {
    b + "/"@ + dec_digits(h as nat) + "/worker"@
}

/// The query document posted to a worker: it demands exactly the block at
/// height `h` (`fromBlock` = `toBlock` = `h`), selects a minimal set of
/// fields, and sets `includeAllBlocks` so the block comes back even when it
/// matches no transaction or log.
pub open spec fn query_body(h: u64) -> Seq<char> {
    "{\"fromBlock\": "@ + dec_digits(h as nat) + ", \"toBlock\": "@ + dec_digits(h as nat)
        + ", \"fields\": {\"transaction\": {\"hash\": true}, \"log\": {}}, \"transactions\": [], \"logs\": [], \"includeAllBlocks\": true}"@
}

/// Renders the height endpoint for base `b`.
pub fn build_height_endpoint(b: &str) -> (r: String)
    ensures
        r@ == height_endpoint(b@),
{
    let mut s = String::from_str(b);
    s.append("/height");
    s
}

/// Renders the worker endpoint for base `b` and height `h`.
pub fn build_worker_endpoint(b: &str, h: u64) -> (r: String)
    ensures
        r@ == worker_endpoint(b@, h),
{
    let mut s = String::from_str(b);
    s.append("/");
    let digits = u64_to_dec(h);
    s.append(digits.as_str());
    s.append("/worker");
    s
}

/// Renders the query document for height `h`.
pub fn build_query_body(h: u64) -> (r: String)
    ensures
        r@ == query_body(h),
{
    let digits = u64_to_dec(h);
    let mut s = String::from_str("{\"fromBlock\": ");
    s.append(digits.as_str());
    s.append(", \"toBlock\": ");
    s.append(digits.as_str());
    s.append(
        ", \"fields\": {\"transaction\": {\"hash\": true}, \"log\": {}}, \"transactions\": [], \"logs\": [], \"includeAllBlocks\": true}",
    );
    s
}

} // verus!
