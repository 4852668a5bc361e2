use vstd::prelude::*;

verus! {

/// Why a tracking job could not be started for a tenant.
#[derive(Debug, PartialEq, Eq, Structural)]
pub enum ScheduleError {
    /// The tenant has no polling interval configured.
    NoScheduleConfigured,
}

impl ScheduleError {
    /// A fixed description, for callers that log or display errors.
    pub fn message(&self) -> (r: &'static str)
        ensures
            r@ == "No schedule set for this server."@,
    {
        "No schedule set for this server."
    }
}

/// Why a detection/notification cycle could not be dispatched.
#[derive(Debug, PartialEq, Eq, Structural)]
pub enum CycleError {
    /// The tenant has no destination channel configured.
    NoDestinationConfigured,
    /// The configured destination channel is not among the tenant's channels.
    DestinationUnavailable,
}

impl CycleError {
    /// A fixed description, for callers that log or display errors.
    pub fn message(&self) -> (r: &'static str)
        ensures
            *self is NoDestinationConfigured ==> r@ == "No update channel set"@,
            *self is DestinationUnavailable ==> r@ == "Update channel not found in guild"@,
    {
        match self {
            CycleError::NoDestinationConfigured => "No update channel set",
            CycleError::DestinationUnavailable => "Update channel not found in guild",
        }
    }
}

/// Why a catalog-source response could not be turned into an item snapshot.
#[derive(Debug, PartialEq, Eq, Structural)]
pub enum CatalogError {
    /// The response body is not well-formed JSON.
    MalformedResponse,
    /// The update timestamp field is not an unsigned decimal number in range.
    BadTimestamp,
    /// A collection member carries no textual id.
    MissingChildId,
    /// A collection member id is not an unsigned decimal number in range.
    BadChildId,
}

impl CatalogError {
    /// A fixed description, for callers that log or display errors.
    pub fn message(&self) -> (r: &'static str)
        ensures
            *self is MalformedResponse ==> r@ == "Malformed catalog response"@,
            *self is BadTimestamp ==> r@ == "Catalog response carries no usable timestamp"@,
            *self is MissingChildId ==> r@ == "No member id"@,
            *self is BadChildId ==> r@ == "Collection member id is not a number"@,
    {
        match self {
            CatalogError::MalformedResponse => "Malformed catalog response",
            CatalogError::BadTimestamp => "Catalog response carries no usable timestamp",
            CatalogError::MissingChildId => "No member id",
            CatalogError::BadChildId => "Collection member id is not a number",
        }
    }
}

/// Why a requested date could not be used as a starting point.
#[derive(Debug, PartialEq, Eq, Structural)]
pub enum DateError {
    /// The text could not be parsed as a date.
    Unparsable,
    /// The date lies before the epoch.
    TooOld,
    /// The date lies in the future.
    InFuture,
}

/// Why a set of autocomplete suggestions could not be computed.
#[derive(Debug, PartialEq, Eq, Structural)]
pub enum PatternError {
    /// The search text does not form a valid match pattern.
    InvalidPattern,
}

} // verus!
