//! The raw, provider-shaped instance records that normalization consumes.
//!
//! The provider's SDK answers a query with deeply nested, mostly-optional
//! records.  The library depends only on this flat mirror of the fields it
//! reads; the unverified transport layer fills these in from the SDK's own
//! types.

use vstd::prelude::*;

verus! {

/// One network interface of a raw instance; only its private address matters
/// to normalization.
pub struct RawNetworkInterface {
    pub private_ip_address: Option<String>,
}

/// One raw tag pair.  Either half may be absent upstream; a pair missing
/// either half is dropped during normalization.
pub struct RawTag {
    pub key: Option<String>,
    pub value: Option<String>,
}

/// The lifecycle state of a raw instance.
pub struct RawState {
    pub name: Option<String>,
}

/// The placement of a raw instance.
pub struct RawPlacement {
    pub availability_zone: Option<String>,
}

/// One raw instance record, as the provider reports it: every field
/// optional, addresses split over the record itself and its interfaces,
/// and tags as a list of pairs.
pub struct RawInstanceRecord {
    pub instance_id: Option<String>,
    pub network_interfaces: Option<Vec<RawNetworkInterface>>,
    pub private_ip_address: Option<String>,
    pub public_ip_address: Option<String>,
    pub state: Option<RawState>,
    pub launch_time: Option<String>,
    pub placement: Option<RawPlacement>,
    pub image_id: Option<String>,
    pub tags: Option<Vec<RawTag>>,
}

/// One reservation: the grouping the provider wraps instances in.
pub struct RawReservation {
    pub instances: Option<Vec<RawInstanceRecord>>,
}

} // verus!
