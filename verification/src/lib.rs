//! A verified client library for a space-trading game played over an
//! HTTP/JSON API.
//!
//! The library owns everything that can be stated and proved: the
//! self-validating value types used at the wire boundary, the session cache
//! and the invariants every stateful operation preserves, the response
//! envelope protocol, and the save-file codec with its round-trip guarantee.
//! The surrounding binary performs the actual network and file I/O and hands
//! plain values (response text, file contents) back to the library.

use vstd::prelude::*;

pub mod conditional_types;
pub mod json;
pub mod codec;
pub mod agent;
pub mod faction;
pub mod contract;
pub mod meta;
pub mod waypoint;
pub mod ship;
pub mod space_traders_client;

use crate::codec::{get_i32, get_str, json_get, json_get_i32, json_get_str};
use crate::json::{json_clone, json_clone_items, jv, jv_seq, obj_get, Json, JsonV};
use crate::meta::{meta_of_jv, Meta, MetaV};

verus! {

/// Every failure a client operation can report.
#[derive(Debug)]
pub enum SpaceTradersError {
    /// The callsign handed to registration is shorter than 3 or longer than
    /// 14 characters.
    InvalidCallsignLength,
    /// An operation that talks to the server was attempted before a token was
    /// set.
    TokenNotSet,
    /// The transport failed before a response arrived; carries the
    /// transport's own message.
    TransportError(String),
    /// Reading or writing the save file failed; carries the I/O message.
    FileError(String),
    /// A response or save line did not decode as the expected shape.
    JsonError(String),
    /// The cache was empty where a populated one was required; for a ship
    /// purchase the transaction that already happened is carried along.
    EmptyCache(Option<String>),
    /// The save file is missing a line.
    InvalidSave(String),
    /// The server answered with its structured error envelope.
    ResponseError(ResponseError),
    /// A request URL could not be built.
    UrlParseError(String),
    /// No cached contract has this id.
    InvalidContractId(String),
    /// No cached ship has this symbol.
    InvalidShipSymbol(String),
    /// The response had a recognizable envelope of the wrong kind for the
    /// endpoint, or no recognizable envelope at all: an API contract break.
    ProtocolViolation,
}

/// The server's structured error payload: a numeric code, a message, and
/// optional extra data.
#[derive(Debug)]
pub struct ResponseError {
    code: i32,
    message: String,
    data: Option<Json>,
}

/// The mathematical view of [`ResponseError`].
pub struct ResponseErrorV {
    pub code: int,
    pub message: Seq<char>,
    pub data: Option<JsonV>,
}

impl DeepView for ResponseError {
    type V = ResponseErrorV;

    closed spec fn deep_view(&self) -> ResponseErrorV {
        ResponseErrorV {
            code: self.code as int,
            message: self.message@,
            data: match self.data {
                Some(d) => Some(jv(d)),
                None => None,
            },
        }
    }
}

/// Extract a server error from the payload of an error envelope.
pub open spec fn response_error_of_jv(j: JsonV) -> Option<ResponseErrorV> {
    match j {
        JsonV::Obj(es) => match (get_i32(es, "code"@), get_str(es, "message"@)) {
            (Some(code), Some(message)) => Some(
                ResponseErrorV {
                    code,
                    message,
                    data: match obj_get(es, "data"@) {
                        None => None,
                        Some(JsonV::Null) => None,
                        Some(d) => Some(d),
                    },
                },
            ),
            _ => None,
        },
        _ => None,
    }
}

impl ResponseError {
    /// The server's numeric error code.
    pub fn code(&self) -> (r: i32)
        ensures
            r as int == self.deep_view().code,
    {
        self.code
    }

    /// The server's error message.
    pub fn message(&self) -> (r: &str)
        ensures
            r@ == self.deep_view().message,
    {
        self.message.as_str()
    }

    /// Decode a server error from the payload of an error envelope.
    pub fn from_json(j: &Json) -> (r: Option<ResponseError>)
        ensures
            match r {
                Some(e) => response_error_of_jv(jv(*j)) == Some(e.deep_view()),
                None => response_error_of_jv(jv(*j)) is None,
            },
    {
        let entries = match j {
            Json::Obj(entries) => entries,
            _ => { return None; }
        };
        proof {
            assert(*j == Json::Obj(*entries));
        }
        let code = match json_get_i32(entries, "code") {
            Some(v) => v,
            None => { return None; }
        };
        let message = match json_get_str(entries, "message") {
            Some(v) => v.clone(),
            None => { return None; }
        };
        let data = match json_get(entries, "data") {
            None => None,
            Some(dj) => match dj {
                Json::Null => None,
                _ => Some(json_clone(dj)),
            },
        };
        Some(ResponseError { code, message, data })
    }
}

/// The three shapes a response can take: a single object, a paginated list,
/// or the server's error payload.
#[derive(Debug)]
pub enum Envelope {
    Single { data: Json },
    Paginated { data: Vec<Json>, meta: Meta },
    ApiError { error: ResponseError },
}

/// The mathematical view of [`Envelope`].
pub enum EnvelopeV {
    Single(JsonV),
    Paginated(Seq<JsonV>, MetaV),
    ApiError(ResponseErrorV),
}

impl DeepView for Envelope {
    type V = EnvelopeV;

    open spec fn deep_view(&self) -> EnvelopeV {
        match self {
            Envelope::Single { data } => EnvelopeV::Single(jv(*data)),
            Envelope::Paginated { data, meta } => EnvelopeV::Paginated(
                jv_seq(data@),
                meta.deep_view(),
            ),
            Envelope::ApiError { error } => EnvelopeV::ApiError(error.deep_view()),
        }
    }
}

/// The envelope rule: an `error` member wins and must decode as a server
/// error; otherwise a `data` member is paginated exactly when a decodable
/// `meta` member stands beside it (with `data` an array), and single
/// otherwise.
pub open spec fn classify_spec(j: JsonV) -> Option<EnvelopeV> {
    match j {
        JsonV::Obj(es) => match obj_get(es, "error"@) {
            Some(ej) => match response_error_of_jv(ej) {
                Some(e) => Some(EnvelopeV::ApiError(e)),
                None => None,
            },
            None => match obj_get(es, "data"@) {
                Some(dj) => match obj_get(es, "meta"@) {
                    Some(mj) => match (dj, meta_of_jv(mj)) {
                        (JsonV::Arr(items), Some(m)) => Some(EnvelopeV::Paginated(items, m)),
                        _ => None,
                    },
                    None => Some(EnvelopeV::Single(dj)),
                },
                None => None,
            },
        },
        _ => None,
    }
}

/// Classify a response body. A body that fits none of the three shapes is a
/// protocol violation: the API broke its own contract.
pub fn classify_response(j: &Json) -> (r: Result<Envelope, SpaceTradersError>)
    ensures
        match r {
            Ok(env) => classify_spec(jv(*j)) == Some(env.deep_view()),
            Err(e) => classify_spec(jv(*j)) is None && e matches
                SpaceTradersError::ProtocolViolation,
        },
{
    let entries = match j {
        Json::Obj(entries) => entries,
        _ => { return Err(SpaceTradersError::ProtocolViolation); }
    };
    proof {
        assert(*j == Json::Obj(*entries));
    }
    match json_get(entries, "error") {
        Some(ej) => match ResponseError::from_json(ej) {
            Some(error) => Ok(Envelope::ApiError { error }),
            None => Err(SpaceTradersError::ProtocolViolation),
        },
        None => match json_get(entries, "data") {
            Some(dj) => match json_get(entries, "meta") {
                Some(mj) => match dj {
                    Json::Arr(items) => match Meta::from_json(mj) {
                        Some(meta) => {
                            proof {
                                assert(*dj == Json::Arr(*items));
                            }
                            Ok(Envelope::Paginated { data: json_clone_items(items), meta })
                        }
                        None => Err(SpaceTradersError::ProtocolViolation),
                    },
                    _ => Err(SpaceTradersError::ProtocolViolation),
                },
                None => Ok(Envelope::Single { data: json_clone(dj) }),
            },
            None => Err(SpaceTradersError::ProtocolViolation),
        },
    }
}

} // verus!
