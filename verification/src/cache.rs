//! The persisted cache envelope and the rules that govern it: the freshness
//! (time-to-live) comparison and the derivation of the one on-disk path that
//! serves a given account and region.
//!
//! The envelope's transport (encoding the file, the temporary-file-then-rename
//! replacement) happens outside the library; everything here is pure.

use vstd::prelude::*;
use vstd::string::StringExecFns;

verus! {

/// One persisted unit: the instant it was written (seconds since the Unix
/// epoch, UTC) and the instance snapshot taken then, in fetch order.
#[derive(Debug, PartialEq, Eq)]
pub struct CacheData {
    pub written_time: i64,
    pub instance_data: Vec<crate::instance::AshufInfo>,
}

/// The freshness rule: an envelope written at `written_time` is fresh at
/// `now` exactly when strictly less than `ttl_seconds` have passed since.
/// An age equal to the time-to-live already counts as expired.
pub open spec fn spec_is_fresh(written_time: i64, ttl_seconds: i64, now: i64) -> bool {
    now - written_time < ttl_seconds
}

/// Decides whether `envelope` is still fresh at `now` under `ttl_seconds`.
pub fn is_fresh(envelope: &CacheData, ttl_seconds: i64, now: i64) -> (fresh: bool)
    ensures
        fresh == spec_is_fresh(envelope.written_time, ttl_seconds, now),
{
    (now as i128) - (envelope.written_time as i128) < (ttl_seconds as i128)
}

/// Builds the envelope a live refresh persists: stamped with the write
/// instant and carrying the fetched instances in their fetch order.  A
/// write always replaces the whole envelope for its key; nothing is merged.
pub fn make_envelope(instances: Vec<crate::instance::AshufInfo>, now: i64) -> (env: CacheData)
    ensures
        env.written_time == now,
        env.instance_data == instances,
{
    CacheData { written_time: now, instance_data: instances }
}

/// An envelope written at `now` is fresh at `now` exactly when the
/// time-to-live is positive: under any positive time-to-live, a reader
/// right after the writer is served exactly what was written.
pub proof fn lemma_fresh_at_write(ttl_seconds: i64, now: i64)
    ensures
        spec_is_fresh(now, ttl_seconds, now) <==> ttl_seconds > 0,
{
}

/// The freshness boundary is strict: an envelope one second younger than
/// the time-to-live is still fresh, and one aged exactly the time-to-live
/// is already expired.
pub proof fn lemma_ttl_boundary(written_time: i64, ttl_seconds: i64, now: i64)
    ensures
        now - written_time == ttl_seconds - 1 ==> spec_is_fresh(written_time, ttl_seconds, now),
        now - written_time >= ttl_seconds ==> !spec_is_fresh(written_time, ttl_seconds, now),
{
}

/// The canonical cache file path for an account and region, below `cache_dir`.
pub open spec fn spec_cache_path(
    cache_dir: Seq<char>,
    account: Seq<char>,
    region: Seq<char>,
) -> Seq<char> {
    cache_dir + "/"@ + account + "_"@ + region + "_ec2_instances.json"@
}

/// Builds the cache file path for `(account, region)` under `cache_dir`.
/// Distinct account/region pairs map to distinct paths as long as neither
/// account nor region contains an underscore.
pub fn cache_path(cache_dir: &str, account: &str, region: &str) -> (path: String)
    ensures
        path@ == spec_cache_path(cache_dir@, account@, region@),
{
    let mut path = String::from_str(cache_dir);
    path.append("/");
    path.append(account);
    path.append("_");
    path.append(region);
    path.append("_ec2_instances.json");
    path
}

} // verus!
