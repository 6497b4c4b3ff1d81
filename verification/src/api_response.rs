//! A fetch response as the caller reads it: status, url and headers are
//! plain fields; the body lives driver-side under the response's fetch
//! handle until it is fetched or disposed.

use vstd::prelude::*;

use crate::api_request_context::{APIResponsePayload, NameValue};
use crate::error::Error;
use crate::json::{json_field, JsonData, JsonValue};

verus! {

/// A response handle: the payload one `fetch` call returned.
pub struct APIResponse {
    pub payload: APIResponsePayload,
}

/// What a fetch response payload reads as from the wire: `{fetchUid, url,
/// status, statusText}`, each of the expected shape.
pub open spec fn payload_fields_ok(v: JsonData) -> bool {
    &&& json_field(v, "fetchUid"@) matches Some(JsonData::Str(_))
    &&& json_field(v, "url"@) matches Some(JsonData::Str(_))
    &&& json_field(v, "status"@) matches Some(JsonData::Int(_))
    &&& json_field(v, "statusText"@) matches Some(JsonData::Str(_))
}

/// Read the payload out of the `response` field of a fetch result. The
/// headers are taken from the payload's `headers` array, keeping the entries
/// shaped as `{name, value}` pairs of strings.
pub fn parse_fetch_response(body: &JsonValue) -> (r: Result<APIResponsePayload, Error>)
    ensures
        match r {
            Ok(p) => match json_field(body@, "response"@) {
                Some(v) => {
                    &&& payload_fields_ok(v)
                    &&& json_field(v, "fetchUid"@) == Some(JsonData::Str(p.fetch_uid@))
                    &&& json_field(v, "url"@) == Some(JsonData::Str(p.url@))
                    &&& json_field(v, "status"@) == Some(JsonData::Int(p.status))
                    &&& json_field(v, "statusText"@) == Some(JsonData::Str(p.status_text@))
                },
                None => false,
            },
            Err(e) => e is InvalidParams,
        },
{
    let v: &JsonValue = match body.get("response") {
        Some(v) => v,
        None => {
            return Err(Error::InvalidParams);
        },
    };
    let fetch_uid: String = match v.get("fetchUid") {
        Some(f) => match f.as_str() {
            Some(s) => s.clone(),
            None => {
                return Err(Error::InvalidParams);
            },
        },
        None => {
            return Err(Error::InvalidParams);
        },
    };
    let url: String = match v.get("url") {
        Some(f) => match f.as_str() {
            Some(s) => s.clone(),
            None => {
                return Err(Error::InvalidParams);
            },
        },
        None => {
            return Err(Error::InvalidParams);
        },
    };
    let status: i64 = match v.get("status") {
        Some(f) => match f.as_i64() {
            Some(n) => n,
            None => {
                return Err(Error::InvalidParams);
            },
        },
        None => {
            return Err(Error::InvalidParams);
        },
    };
    let status_text: String = match v.get("statusText") {
        Some(f) => match f.as_str() {
            Some(s) => s.clone(),
            None => {
                return Err(Error::InvalidParams);
            },
        },
        None => {
            return Err(Error::InvalidParams);
        },
    };
    let mut headers: Vec<NameValue> = Vec::new();
    match v.get("headers") {
        Some(hs) => match hs.as_array() {
            Some(items) => {
                let mut i: usize = 0;
                while i < items.len()
                    decreases items@.len() - i,
                {
                    let name: Option<String> = match items[i].get("name") {
                        Some(n) => match n.as_str() {
                            Some(s) => Some(s.clone()),
                            None => None,
                        },
                        None => None,
                    };
                    let value: Option<String> = match items[i].get("value") {
                        Some(n) => match n.as_str() {
                            Some(s) => Some(s.clone()),
                            None => None,
                        },
                        None => None,
                    };
                    match (name, value) {
                        (Some(n), Some(val)) => headers.push(NameValue { name: n, value: val }),
                        _ => {},
                    }
                    i += 1;
                }
            },
            None => {},
        },
        None => {},
    }
    Ok(APIResponsePayload { fetch_uid, url, status, status_text, headers })
}

impl APIResponse {
    /// Wrap a payload.
    pub fn new(payload: APIResponsePayload) -> (r: APIResponse)
        ensures
            r.payload == payload,
    {
        APIResponse { payload }
    }

    /// The response's status code.
    pub fn status(&self) -> (r: i64)
        ensures
            r == self.payload.status,
    {
        self.payload.status
    }

    /// The response's status text.
    pub fn status_text(&self) -> (r: &String)
        ensures
            r == self.payload.status_text,
    {
        &self.payload.status_text
    }

    /// The response's final url.
    pub fn url(&self) -> (r: &String)
        ensures
            r == self.payload.url,
    {
        &self.payload.url
    }

    /// The response's headers as name/value pairs.
    pub fn headers(&self) -> (r: Vec<(String, String)>)
        ensures
            r@.len() == self.payload.headers@.len(),
            forall|i: int|
                0 <= i < r@.len() ==> (#[trigger] r@[i]) == (
                    self.payload.headers@[i].name,
                    self.payload.headers@[i].value,
                ),
    {
        let mut r: Vec<(String, String)> = Vec::new();
        let mut i: usize = 0;
        while i < self.payload.headers.len()
            invariant
                i <= self.payload.headers@.len(),
                r@.len() == i,
                forall|k: int|
                    0 <= k < i ==> (#[trigger] r@[k]) == (
                        self.payload.headers@[k].name,
                        self.payload.headers@[k].value,
                    ),
            decreases self.payload.headers@.len() - i,
        {
            r.push(
                (self.payload.headers[i].name.clone(), self.payload.headers[i].value.clone()),
            );
            i += 1;
        }
        r
    }

    /// The response's headers, each as one wire pair.
    pub fn headers_array(&self) -> (r: &Vec<NameValue>)
        ensures
            r == self.payload.headers,
    {
        &self.payload.headers
    }

    /// Whether the response is a success: status zero, or in the 200 range.
    pub fn ok(&self) -> (r: bool)
        ensures
            r == (self.payload.status == 0 || (200 <= self.payload.status
                && self.payload.status <= 299)),
    {
        let s = self.payload.status;
        s == 0 || (200 <= s && s <= 299)
    }
}

} // verus!
