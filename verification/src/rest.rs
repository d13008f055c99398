//! The REST endpoints' request handling: what a readings request asks the
//! store for, and when it is refused.
use vstd::prelude::*;
use crate::storage::AggregationLevel;
use crate::text::str_eq;

verus! {

/// The HTTP status of a refused request.
#[derive(PartialEq, Eq, Structural, Clone, Copy, Debug)]
pub enum StatusCode {
    /// 400
    BadRequest,
    /// 404
    NotFound,
    /// 500
    InternalServerError,
}

impl StatusCode {
    /// The numeric status.
    pub fn as_u16(&self) -> (n: u16)
        ensures
            n == (match *self {
                StatusCode::BadRequest => 400u16,
                StatusCode::NotFound => 404u16,
                StatusCode::InternalServerError => 500u16,
            }),
    {
        match self {
            StatusCode::BadRequest => 400,
            StatusCode::NotFound => 404,
            StatusCode::InternalServerError => 500,
        }
    }
}

/// The aggregation a query parameter asks for: `1m`, `5m`, `1h`, `1d`, else
/// raw readings, also when there is no parameter.
pub open spec fn aggregation_of(param: Option<Seq<char>>) -> AggregationLevel {
    match param {
        Some(a) => if a == "1m"@ {
            AggregationLevel::OneMinute
        } else if a == "5m"@ {
            AggregationLevel::FiveMinutes
        } else if a == "1h"@ {
            AggregationLevel::OneHour
        } else if a == "1d"@ {
            AggregationLevel::OneDay
        } else {
            AggregationLevel::Raw
        },
        None => AggregationLevel::Raw,
    }
}

/// The aggregation a query parameter asks for.
pub fn aggregation_level(param: Option<&str>) -> (a: AggregationLevel)
    ensures
        a == aggregation_of(match param { Some(p) => Some(p@), None => None }),
{
    match param {
        Some(p) => if str_eq(p, "1m") {
            AggregationLevel::OneMinute
        } else if str_eq(p, "5m") {
            AggregationLevel::FiveMinutes
        } else if str_eq(p, "1h") {
            AggregationLevel::OneHour
        } else if str_eq(p, "1d") {
            AggregationLevel::OneDay
        } else {
            AggregationLevel::Raw
        },
        None => AggregationLevel::Raw,
    }
}

/// The UUID that `uuid::Uuid::parse_str` reads from `text`, as an integer;
/// `None` where it does not read one.
pub uninterp spec fn parsed_uuid(text: Seq<char>) -> Option<u128>;

/// `uuid::Uuid::parse_str`: the UUID written in `text`, in any of the forms
/// the crate reads, as an integer. Which texts it reads is the crate's.
#[verifier::external_body]
fn parse_uuid(text: &str) -> (r: Option<u128>)
    ensures
        r == parsed_uuid(text@),
{
    uuid::Uuid::parse_str(text).ok().map(|u| u.as_u128())
}

/// What a readings request asks the store for: one sensor's readings between
/// two times (seconds), at an aggregation.
#[derive(PartialEq, Eq, Structural, Clone, Copy, Debug)]
pub struct ReadingsRequest {
    pub sensor_id: u128,
    pub from: i64,
    pub to: i64,
    pub aggregation: AggregationLevel,
}

/// A refused request.
pub open spec fn bad_request() -> Result<ReadingsRequest, StatusCode> {
    Err(StatusCode::BadRequest)
}

/// The request for `sensor` between `from` and `to` at the aggregation that
/// `aggregation` asks for.
pub open spec fn request_of(sensor: u128, from: i64, to: i64, aggregation: Option<Seq<char>>) -> Result<ReadingsRequest, StatusCode> {
    Ok(ReadingsRequest { sensor_id: sensor, from, to, aggregation: aggregation_of(aggregation) })
}

/// The request for a sensor id as read (`None` where the id is not a UUID):
/// refused with 400 without an id, else the id, the time range and the
/// aggregation asked for.
pub fn readings_request_for(sensor: Option<u128>, from: i64, to: i64, aggregation: Option<&str>) -> (r: Result<ReadingsRequest, StatusCode>)
    ensures
        match sensor {
            None => r == bad_request(),
            Some(id) => r == request_of(id, from, to, match aggregation { Some(p) => Some(p@), None => None }),
        },
{
    match sensor {
        None => Err(StatusCode::BadRequest),
        Some(id) => Ok(ReadingsRequest { sensor_id: id, from, to, aggregation: aggregation_level(aggregation) }),
    }
}

/// The request that the path id and query parameters of a readings call
/// make: refused with 400 where the id is not a UUID.
pub fn readings_request(id: &str, from: i64, to: i64, aggregation: Option<&str>) -> (r: Result<ReadingsRequest, StatusCode>)
    ensures
        match parsed_uuid(id@) {
            None => r == bad_request(),
            Some(u) => r == request_of(u, from, to, match aggregation { Some(p) => Some(p@), None => None }),
        },
{
    let sensor = parse_uuid(id);
    readings_request_for(sensor, from, to, aggregation)
}

} // verus!
