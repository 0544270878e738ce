//! What the service replies to a query and to a liveness probe.

use crate::index::{nearest_model, Candidate, SpatialIndex};
use crate::record::PointModel;
use vstd::prelude::*;

verus! {

/// The body of a reply: an administrative code and an address label.
#[derive(Clone, Debug, PartialEq, Eq)]
pub struct ApiResponse {
    pub citycode: String,
    pub address: String,
}

/// What an [`ApiResponse`] holds, its strings as sequences of characters.
pub struct ResponseModel {
    pub citycode: Seq<char>,
    pub address: Seq<char>,
}

impl View for ApiResponse {
    type V = ResponseModel;

    open spec fn view(&self) -> ResponseModel {
        ResponseModel { citycode: self.citycode@, address: self.address@ }
    }
}

/// How a request ended.
#[derive(Clone, Copy, Debug, PartialEq, Eq)]
pub enum Status {
    /// The reply holds what was asked for.
    Success,
    /// No address point is known at all.
    NotFound,
}

impl Status {
    /// The status code of the reply: 200 for `Success`, 404 for `NotFound`.
    pub open spec fn number(self) -> u16 {
        match self {
            Status::Success => 200,
            Status::NotFound => 404,
        }
    }

    /// The status code of the reply: see [`Status::number`].
    pub fn code(self) -> (n: u16)
        ensures
            n == self.number(),
    {
        match self {
            Status::Success => 200,
            Status::NotFound => 404,
        }
    }
}

/// The body that reports a record: its administrative code and its address
/// label, unchanged.
pub open spec fn found_reply(point: PointModel) -> ResponseModel {
    ResponseModel { citycode: point.citycode, address: point.name }
}

/// The body that reports that no record was found.
pub open spec fn not_found_reply() -> ResponseModel {
    ResponseModel { citycode: Seq::empty(), address: "Not Found"@ }
}

/// The body that answers a liveness probe.
pub open spec fn alive_reply() -> ResponseModel {
    ResponseModel { citycode: Seq::empty(), address: "OK"@ }
}

/// The reply to a query, given the table and what the spatial search found:
/// status and body.
pub open spec fn reply_to(records: Seq<PointModel>, candidates: Seq<Candidate>) -> (
    Status,
    ResponseModel,
) {
    match nearest_model(records, candidates) {
        Some(point) => (Status::Success, found_reply(point)),
        None => (Status::NotFound, not_found_reply()),
    }
}

/// Answers a liveness probe: always `Success`, whatever the table holds.
pub fn healthcheck() -> (reply: (Status, ApiResponse))
    ensures
        reply.0 == Status::Success,
        reply.1@ == alive_reply(),
{
    let response = ApiResponse { citycode: String::new(), address: "OK".to_owned() };
    (Status::Success, response)
}

/// Answers a query, given the candidates that the spatial search found for
/// it. Where a record answers the query (see [`SpatialIndex::nearest`]), the
/// reply is `Success` with that record's administrative code and address label;
/// where none does, it is `NotFound`.
pub fn search_handler(index: &SpatialIndex, candidates: &Vec<Candidate>) -> (reply: (
    Status,
    ApiResponse,
))
    ensures
        reply.0 == reply_to(index@, candidates@).0,
        reply.1@ == reply_to(index@, candidates@).1,
{
    match index.nearest(candidates) {
        Some(point) => {
            let response = ApiResponse {
                citycode: point.citycode.clone(),
                address: point.name.clone(),
            };
            (Status::Success, response)
        },
        None => {
            let response = ApiResponse {
                citycode: String::new(),
                address: "Not Found".to_owned(),
            };
            (Status::NotFound, response)
        },
    }
}

} // verus!
