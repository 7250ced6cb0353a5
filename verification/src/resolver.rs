//! Resolution policy: prefer a fresh cached instance set, fall back to a
//! live fetch on any miss, and degrade a failed fetch to an empty set.
//!
//! The resolver never performs transport itself.  The surrounding program
//! reads the cache file, queries the provider and writes the new envelope;
//! every decision about those outcomes is made — and verified — here.

use vstd::prelude::*;
use vstd::string::StringExecFns;

use crate::cache::{is_fresh, spec_is_fresh, CacheData};
use crate::errors::{CacheError, NormalizationError};
use crate::instance::AshufInfo;
use crate::normalize::{
    all_normalized, ashuf_info_list, ec2_res_to_instances, first_normalization_error,
    flatten_reservations,
};
use crate::raw::RawReservation;

verus! {

/// Relies on `chrono::Utc::now`: the current instant, as whole seconds
/// since the Unix epoch.  Nothing is promised of the clock's reading.
#[verifier::external_body]
fn now_epoch_seconds() -> i64 {
    chrono::Utc::now().timestamp()
}

/// The cache store's answer, resolved at the instant `now`: a present,
/// fresh envelope serves exactly its instances; an expired one is reported
/// unavailable; a failed read passes through unchanged.
pub fn cached_data_at(read: Result<CacheData, CacheError>, cache_ttl: i64, now: i64) -> (r: Result<
    Vec<AshufInfo>,
    CacheError,
>)
    ensures
        r is Ok <==> read is Ok && spec_is_fresh((read->Ok_0).written_time, cache_ttl, now),
        r is Ok ==> r->Ok_0 == (read->Ok_0).instance_data,
        read is Err ==> r is Err && r->Err_0 == read->Err_0,
        read is Ok && !spec_is_fresh((read->Ok_0).written_time, cache_ttl, now) ==> r is Err && (
        r->Err_0 matches CacheError::Unavailable(m) && m@ == "expired"@),
{
    match read {
        Ok(env) => {
            if is_fresh(&env, cache_ttl, now) {
                Ok(env.instance_data)
            } else {
                Err(CacheError::Unavailable(String::from_str("expired")))
            }
        },
        Err(e) => Err(e),
    }
}

/// The cache store's answer, resolved against the clock.  Whatever instant
/// the clock reads, a success comes only from a successfully read envelope
/// and carries exactly its instances; a failed read passes through; an
/// envelope refused despite a successful read was refused as expired.
pub fn ec2_cached_data(read: Result<CacheData, CacheError>, cache_ttl: i64) -> (r: Result<
    Vec<AshufInfo>,
    CacheError,
>)
    ensures
        r is Ok ==> read is Ok && r->Ok_0 == (read->Ok_0).instance_data,
        read is Err ==> r is Err && r->Err_0 == read->Err_0,
        r is Err && read is Ok ==> (r->Err_0 matches CacheError::Unavailable(m) && m@
            == "expired"@),
{
    let now = now_epoch_seconds();
    cached_data_at(read, cache_ttl, now)
}

/// How one resolution proceeds once the cache store has answered: serve the
/// cached instances as they stand, or fall back to a live fetch.
#[derive(Debug, PartialEq, Eq)]
pub enum ResolvePlan {
    UseCached(Vec<AshufInfo>),
    FetchLive,
}

/// Decides a resolution from the cache store's answer at the instant
/// `now`.  Bypassing skips the cache outright.  Otherwise a present, fresh
/// envelope is served directly — no normalization, no fetch — and any read
/// failure or expiry falls back to a live fetch; no read failure ever
/// reaches the caller as an error.
pub fn plan_resolution(
    bypass_cache: bool,
    read: Result<CacheData, CacheError>,
    cache_ttl: i64,
    now: i64,
) -> (plan: ResolvePlan)
    ensures
        bypass_cache ==> plan is FetchLive,
        !bypass_cache && read is Ok && spec_is_fresh((read->Ok_0).written_time, cache_ttl, now)
            ==> (plan matches ResolvePlan::UseCached(d) && d == (read->Ok_0).instance_data),
        !bypass_cache && (read is Err || !spec_is_fresh(
            (read->Ok_0).written_time,
            cache_ttl,
            now,
        )) ==> plan is FetchLive,
{
    if bypass_cache {
        return ResolvePlan::FetchLive;
    }
    match cached_data_at(read, cache_ttl, now) {
        Ok(data) => ResolvePlan::UseCached(data),
        Err(_) => ResolvePlan::FetchLive,
    }
}

/// The computing half of a live refresh.  A failed fetch (`None`) degrades
/// to an empty instance list — "nothing found" rather than a hard failure.
/// A successful fetch has its reservations flattened and every record
/// normalized; a record missing a required field is fatal to the whole
/// refresh, and no partial list escapes.
pub fn live_instances(fetch: Option<Vec<RawReservation>>) -> (r: Result<
    Vec<AshufInfo>,
    NormalizationError,
>)
    ensures
        fetch is None ==> r is Ok && (r->Ok_0)@ == Seq::<AshufInfo>::empty(),
        fetch is Some ==> match r {
            Ok(list) => all_normalized(flatten_reservations((fetch->0)@), list@),
            Err(e) => first_normalization_error(flatten_reservations((fetch->0)@), e),
        },
{
    match fetch {
        Some(reservations) => {
            let raws = ec2_res_to_instances(reservations);
            ashuf_info_list(raws)
        },
        None => Ok(Vec::new()),
    }
}

} // verus!
