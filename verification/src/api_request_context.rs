//! Web API testing over the driver: the fetch request arguments, the
//! request-options builder that produces them, and the readers of a fetch
//! response.

use vstd::prelude::*;

use crate::b64::{base64_of, decode_base64, encode_base64};
use crate::error::Error;
use crate::json::{arr_items, json_field, obj_fields, JsonData, JsonValue};

verus! {

/// One name/value pair, as headers, query parameters and form fields go on
/// the wire.
pub struct NameValue {
    pub name: String,
    pub value: String,
}

impl NameValue {
    /// One pair.
    pub fn new(name: String, value: String) -> (r: NameValue)
        ensures
            r.name == name,
            r.value == value,
    {
        NameValue { name, value }
    }
}

/// The JSON shape of one name/value pair.
pub open spec fn name_value_item(n: Seq<char>, v: Seq<char>) -> JsonData {
    JsonData::Obj(seq![("name"@, JsonData::Str(n)), ("value"@, JsonData::Str(v))])
}

/// The JSON array of a pair list.
pub open spec fn name_value_items(s: Seq<NameValue>) -> Seq<JsonData> {
    Seq::new(s.len(), |i: int| name_value_item(s[i].name@, s[i].value@))
}

/// Turn a pair list into its JSON array.
pub fn name_values_json(s: &Vec<NameValue>) -> (r: JsonValue)
    ensures
        r@ == JsonData::Arr(name_value_items(s@)),
{
    let mut arr = JsonValue::arr_new();
    let mut i: usize = 0;
    while i < s.len()
        invariant
            i <= s@.len(),
            arr@ is Arr,
            arr_items(arr@) =~= name_value_items(s@).subrange(0, i as int),
        decreases s@.len() - i,
    {
        let item = JsonValue::obj_new().with_str_field("name", s[i].name.as_str()).with_str_field(
            "value",
            s[i].value.as_str(),
        );
        proof {
            assert(obj_fields(item@) =~= seq![
                ("name"@, JsonData::Str(s@[i as int].name@)),
                ("value"@, JsonData::Str(s@[i as int].value@)),
            ]);
            assert(item@ == name_value_item(s@[i as int].name@, s@[i as int].value@));
        }
        arr = arr.with_item(item);
        i += 1;
        proof {
            assert(arr_items(arr@) =~= name_value_items(s@).subrange(0, i as int));
        }
    }
    proof {
        assert(name_value_items(s@).subrange(0, s@.len() as int) =~= name_value_items(s@));
    }
    arr
}

/// The body a request carries: raw bytes, a JSON document, or text.
pub enum RequestData {
    Bytes(Vec<u8>),
    Json(JsonValue),
    Text(String),
}

/// One multipart form entry: a plain value, or a file with its name, its
/// media type and its raw content.
pub struct MultipartEntry {
    pub name: String,
    pub value: Option<String>,
    pub file_name: Option<String>,
    pub mime_type: Option<String>,
    pub buffer: Option<Vec<u8>>,
}

impl MultipartEntry {
    /// A plain multipart value.
    pub fn value(name: String, value: String) -> (r: MultipartEntry)
        ensures
            r.name == name,
            r.value == Some(value),
            r.file_name is None,
            r.mime_type is None,
            r.buffer is None,
    {
        MultipartEntry { name, value: Some(value), file_name: None, mime_type: None, buffer: None }
    }

    /// A multipart file entry.
    pub fn file(name: String, file_name: String, mime_type: Option<String>, buffer: Vec<u8>) -> (r:
        MultipartEntry)
        ensures
            r.name == name,
            r.value is None,
            r.file_name == Some(file_name),
            r.mime_type == mime_type,
            r.buffer == Some(buffer),
    {
        MultipartEntry {
            name,
            value: None,
            file_name: Some(file_name),
            mime_type,
            buffer: Some(buffer),
        }
    }
}

/// The JSON shape of one multipart entry: its name, its value when it is a
/// plain one, and its file — name, optional media type, base64 content —
/// when both a file name and a buffer were given.
pub open spec fn multipart_item(e: MultipartEntry) -> JsonData {
    let f0: Seq<(Seq<char>, JsonData)> = seq![("name"@, JsonData::Str(e.name@))];
    let f1 = match e.value {
        Some(v) => f0.push(("value"@, JsonData::Str(v@))),
        None => f0,
    };
    match (e.file_name, e.buffer) {
        (Some(fname), Some(buf)) => {
            let g0: Seq<(Seq<char>, JsonData)> = seq![("name"@, JsonData::Str(fname@))];
            let g1 = match e.mime_type {
                Some(m) => g0.push(("mimeType"@, JsonData::Str(m@))),
                None => g0,
            };
            let g2 = g1.push(("buffer"@, JsonData::Str(base64_of(buf@))));
            JsonData::Obj(f1.push(("file"@, JsonData::Obj(g2))))
        },
        _ => JsonData::Obj(f1),
    }
}

/// Turn one multipart entry into its JSON shape.
pub fn multipart_entry_json(e: &MultipartEntry) -> (r: JsonValue)
    requires
        e.buffer matches Some(b) ==> b@.len() < usize::MAX / 2,
    ensures
        r@ == multipart_item(*e),
{
    let mut o = JsonValue::obj_new().with_str_field("name", e.name.as_str());
    match &e.value {
        Some(v) => {
            o = o.with_str_field("value", v.as_str());
        },
        None => {},
    }
    match (&e.file_name, &e.buffer) {
        (Some(fname), Some(buf)) => {
            let mut file = JsonValue::obj_new().with_str_field("name", fname.as_str());
            match &e.mime_type {
                Some(m) => {
                    file = file.with_str_field("mimeType", m.as_str());
                },
                None => {},
            }
            let encoded = encode_base64(buf.as_slice());
            file = file.with_str_field("buffer", encoded.as_str());
            o = o.with_field("file", file);
            proof {
                assert(obj_fields(o@) =~= obj_fields(multipart_item(*e)));
            }
            o
        },
        _ => {
            proof {
                assert(obj_fields(o@) =~= obj_fields(multipart_item(*e)));
            }
            o
        },
    }
}

/// Options of one fetch call. Every field is sent only when set; the
/// timeout is in milliseconds.
pub struct RequestOptions {
    pub method: Option<String>,
    pub headers: Option<Vec<NameValue>>,
    pub params: Option<Vec<NameValue>>,
    pub data: Option<RequestData>,
    pub form: Option<Vec<NameValue>>,
    pub multipart: Option<Vec<MultipartEntry>>,
    pub timeout: Option<u64>,
    pub fail_on_status_code: Option<bool>,
    pub ignore_https_errors: Option<bool>,
    pub max_redirects: Option<i64>,
    pub max_retries: Option<i64>,
}

impl RequestOptions {
    /// No options at all.
    pub fn none() -> (r: RequestOptions)
        ensures
            r.method is None,
            r.headers is None,
            r.params is None,
            r.data is None,
            r.form is None,
            r.multipart is None,
            r.timeout is None,
            r.fail_on_status_code is None,
            r.ignore_https_errors is None,
            r.max_redirects is None,
            r.max_retries is None,
    {
        RequestOptions {
            method: None,
            headers: None,
            params: None,
            data: None,
            form: None,
            multipart: None,
            timeout: None,
            fail_on_status_code: None,
            ignore_https_errors: None,
            max_redirects: None,
            max_retries: None,
        }
    }

    /// The options with one more header.
    pub fn header(self, key: String, value: String) -> (r: RequestOptions)
        ensures
            r.headers matches Some(hs) && hs@ == (match self.headers {
                Some(h) => h@,
                None => Seq::<NameValue>::empty(),
            }).push(NameValue { name: key, value }),
            r.method == self.method,
            r.params == self.params,
            r.data == self.data,
            r.form == self.form,
            r.multipart == self.multipart,
            r.timeout == self.timeout,
            r.fail_on_status_code == self.fail_on_status_code,
            r.ignore_https_errors == self.ignore_https_errors,
            r.max_redirects == self.max_redirects,
            r.max_retries == self.max_retries,
    {
        let mut hs = match self.headers {
            Some(h) => h,
            None => Vec::new(),
        };
        hs.push(NameValue { name: key, value });
        RequestOptions { headers: Some(hs), ..self }
    }

    /// The options with one more query parameter.
    pub fn param(self, key: String, value: String) -> (r: RequestOptions)
        ensures
            r.params matches Some(ps) && ps@ == (match self.params {
                Some(p) => p@,
                None => Seq::<NameValue>::empty(),
            }).push(NameValue { name: key, value }),
            r.method == self.method,
            r.headers == self.headers,
            r.data == self.data,
    {
        let mut ps = match self.params {
            Some(p) => p,
            None => Vec::new(),
        };
        ps.push(NameValue { name: key, value });
        RequestOptions { params: Some(ps), ..self }
    }

    /// The options with a request body.
    pub fn data(self, data: RequestData) -> (r: RequestOptions)
        ensures
            r.data == Some(data),
            r.method == self.method,
            r.headers == self.headers,
            r.params == self.params,
    {
        RequestOptions { data: Some(data), ..self }
    }

    /// The options with a timeout, in milliseconds.
    pub fn timeout(self, timeout: u64) -> (r: RequestOptions)
        ensures
            r.timeout == Some(timeout),
            r.method == self.method,
            r.data == self.data,
    {
        RequestOptions { timeout: Some(timeout), ..self }
    }

    /// The options asking to fail on a non-success status code.
    pub fn fail_on_status_code(self, fail: bool) -> (r: RequestOptions)
        ensures
            r.fail_on_status_code == Some(fail),
            r.method == self.method,
            r.data == self.data,
    {
        RequestOptions { fail_on_status_code: Some(fail), ..self }
    }

    /// The options asking to ignore certificate errors.
    pub fn ignore_https_errors(self, ignore: bool) -> (r: RequestOptions)
        ensures
            r.ignore_https_errors == Some(ignore),
            r.method == self.method,
            r.data == self.data,
    {
        RequestOptions { ignore_https_errors: Some(ignore), ..self }
    }
}

/// The fields of a fetch request: the url, then every option that was set.
/// A JSON body goes under `jsonData` as the document itself; text and bytes
/// go under `postData` as base64.
pub open spec fn fetch_fields(o: RequestOptions, url: Seq<char>) -> Seq<(Seq<char>, JsonData)> {
    let f0: Seq<(Seq<char>, JsonData)> = seq![("url"@, JsonData::Str(url))];
    let f1 = match o.method {
        Some(m) => f0.push(("method"@, JsonData::Str(m@))),
        None => f0,
    };
    let f2 = match o.headers {
        Some(hs) => f1.push(("headers"@, JsonData::Arr(name_value_items(hs@)))),
        None => f1,
    };
    let f3 = match o.params {
        Some(ps) => f2.push(("params"@, JsonData::Arr(name_value_items(ps@)))),
        None => f2,
    };
    let f4 = match o.form {
        Some(fs) => f3.push(("formData"@, JsonData::Arr(name_value_items(fs@)))),
        None => f3,
    };
    let f5 = match o.multipart {
        Some(ms) => f4.push(
            ("multipartData"@, JsonData::Arr(Seq::new(ms@.len(), |i: int| multipart_item(ms@[i])))),
        ),
        None => f4,
    };
    let f6 = match o.data {
        Some(RequestData::Json(v)) => f5.push(("jsonData"@, v@)),
        Some(RequestData::Text(t)) => f5.push(
            ("postData"@, JsonData::Str(base64_of(text_bytes(t@)))),
        ),
        Some(RequestData::Bytes(b)) => f5.push(("postData"@, JsonData::Str(base64_of(b@)))),
        None => f5,
    };
    let f7 = match o.fail_on_status_code {
        Some(b) => f6.push(("failOnStatusCode"@, JsonData::Bool(b))),
        None => f6,
    };
    let f8 = match o.ignore_https_errors {
        Some(b) => f7.push(("ignoreHttpsErrors"@, JsonData::Bool(b))),
        None => f7,
    };
    let f9 = match o.max_redirects {
        Some(n) => f8.push(("maxRedirects"@, JsonData::Int(n))),
        None => f8,
    };
    let f10 = match o.max_retries {
        Some(n) => f9.push(("maxRetries"@, JsonData::Int(n))),
        None => f9,
    };
    match o.timeout {
        Some(t) => f10.push(("timeout"@, JsonData::Int(t as i64))),
        None => f10,
    }
}

/// The UTF-8 bytes of a text, as `str::as_bytes` reads them.
pub open spec fn text_bytes(s: Seq<char>) -> Seq<u8> {
    vstd::utf8::encode_utf8(s)
}

/// Turn the options into the parameters of one `fetch` call.
pub fn into_fetch_args(options: RequestOptions, url: &str) -> (r: JsonValue)
    requires
        options.data matches Some(RequestData::Bytes(b)) ==> b@.len() < usize::MAX / 2,
        options.data matches Some(RequestData::Text(t)) ==> text_bytes(t@).len() < usize::MAX / 2,
        options.multipart matches Some(ms) ==> forall|i: int|
            0 <= i < ms@.len() ==> ((#[trigger] ms@[i].buffer) matches Some(b) ==> b@.len()
                < usize::MAX / 2),
        options.timeout matches Some(t) ==> t <= i64::MAX,
    ensures
        r@ == JsonData::Obj(fetch_fields(options, url@)),
{
    let ghost opts0 = options;
    let RequestOptions {
        method,
        headers,
        params,
        data,
        form,
        multipart,
        timeout,
        fail_on_status_code,
        ignore_https_errors,
        max_redirects,
        max_retries,
    } = options;
    let mut o = JsonValue::obj_new().with_str_field("url", url);
    match &method {
        Some(m) => {
            o = o.with_str_field("method", m.as_str());
        },
        None => {},
    }
    match &headers {
        Some(hs) => {
            o = o.with_field("headers", name_values_json(hs));
        },
        None => {},
    }
    match &params {
        Some(ps) => {
            o = o.with_field("params", name_values_json(ps));
        },
        None => {},
    }
    match &form {
        Some(fs) => {
            o = o.with_field("formData", name_values_json(fs));
        },
        None => {},
    }
    match &multipart {
        Some(ms) => {
            let mut arr = JsonValue::arr_new();
            let mut i: usize = 0;
            while i < ms.len()
                invariant
                    i <= ms@.len(),
                    arr@ is Arr,
                    forall|k: int|
                        0 <= k < ms@.len() ==> ((#[trigger] ms@[k].buffer) matches Some(b)
                            ==> b@.len() < usize::MAX / 2),
                    arr_items(arr@) =~= Seq::new(i as nat, |k: int| multipart_item(ms@[k])),
                decreases ms@.len() - i,
            {
                let item = multipart_entry_json(&ms[i]);
                arr = arr.with_item(item);
                i += 1;
                proof {
                    assert(arr_items(arr@) =~= Seq::new(
                        i as nat,
                        |k: int| multipart_item(ms@[k]),
                    ));
                }
            }
            proof {
                assert(Seq::new(ms@.len(), |k: int| multipart_item(ms@[k])) =~= arr_items(arr@));
            }
            o = o.with_field("multipartData", arr);
        },
        None => {},
    }
    match data {
        Some(RequestData::Json(v)) => {
            o = o.with_field("jsonData", v);
        },
        Some(RequestData::Text(t)) => {
            let bytes = t.as_str().as_bytes();
            let encoded = encode_base64(bytes);
            o = o.with_str_field("postData", encoded.as_str());
        },
        Some(RequestData::Bytes(b)) => {
            let encoded = encode_base64(b.as_slice());
            o = o.with_str_field("postData", encoded.as_str());
        },
        None => {},
    }
    match fail_on_status_code {
        Some(b) => {
            o = o.with_bool_field("failOnStatusCode", b);
        },
        None => {},
    }
    match ignore_https_errors {
        Some(b) => {
            o = o.with_bool_field("ignoreHttpsErrors", b);
        },
        None => {},
    }
    match max_redirects {
        Some(n) => {
            o = o.with_int_field("maxRedirects", n);
        },
        None => {},
    }
    match max_retries {
        Some(n) => {
            o = o.with_int_field("maxRetries", n);
        },
        None => {},
    }
    match timeout {
        Some(t) => {
            o = o.with_int_field("timeout", t as i64);
        },
        None => {},
    }
    proof {
        assert(obj_fields(o@) =~= fetch_fields(opts0, url@));
    }
    o
}

/// What one fetch response names: the handle for its body, the final url,
/// the status line and the headers.
pub struct APIResponsePayload {
    pub fetch_uid: String,
    pub url: String,
    pub status: i64,
    pub status_text: String,
    pub headers: Vec<NameValue>,
}

/// The `{fetchUid}` parameters the body, log and dispose calls carry.
pub fn fetch_uid_params(fetch_uid: &str) -> (r: JsonValue)
    ensures
        r@ == JsonData::Obj(seq![("fetchUid"@, JsonData::Str(fetch_uid@))]),
{
    let r = JsonValue::obj_new().with_str_field("fetchUid", fetch_uid);
    proof {
        assert(obj_fields(r@) =~= seq![("fetchUid"@, JsonData::Str(fetch_uid@))]);
    }
    r
}

/// The raw body bytes a `fetchResponseBody` response carries: the `binary`
/// field holds them as base64.
pub fn fetch_response_body_bytes(body: &JsonValue) -> (r: Result<Vec<u8>, Error>)
    ensures
        match r {
            Ok(bytes) => json_field(body@, "binary"@) == Some(
                JsonData::Str(base64_of(bytes@)),
            ),
            Err(e) => (e is InvalidParams && !(json_field(body@, "binary"@) matches Some(
                JsonData::Str(_),
            ))) || e is InvalidBase64,
        },
{
    let b64: &String = match body.get("binary") {
        Some(v) => match v.as_str() {
            Some(s) => s,
            None => {
                return Err(Error::InvalidParams);
            },
        },
        None => {
            return Err(Error::InvalidParams);
        },
    };
    decode_base64(b64.as_str())
}

/// The string entries of a `fetchLog` response, in order; entries that are
/// not strings are passed over.
pub open spec fn log_strings(items: Seq<JsonData>) -> Seq<Seq<char>>
    decreases items.len(),
{
    if items.len() == 0 {
        Seq::empty()
    } else {
        let rest = log_strings(items.drop_first());
        match items.first() {
            JsonData::Str(s) => seq![s] + rest,
            _ => rest,
        }
    }
}

/// Read the log lines of a `fetchLog` response.
pub fn fetch_log_lines(body: &JsonValue) -> (r: Result<Vec<String>, Error>)
    ensures
        match r {
            Ok(lines) => match json_field(body@, "log"@) {
                Some(JsonData::Arr(items)) => Seq::new(lines@.len(), |i: int| lines@[i]@)
                    == log_strings(items),
                _ => false,
            },
            Err(e) => e is InvalidParams && !(json_field(body@, "log"@) matches Some(
                JsonData::Arr(_),
            )),
        },
{
    let entries: &Vec<JsonValue> = match body.get("log") {
        Some(v) => match v.as_array() {
            Some(a) => a,
            None => {
                return Err(Error::InvalidParams);
            },
        },
        None => {
            return Err(Error::InvalidParams);
        },
    };
    let ghost items = arr_items(
        match json_field(body@, "log"@) {
            Some(a) => a,
            None => JsonData::Null,
        },
    );
    proof {
        assert(items == Seq::new(entries@.len(), |i: int| entries@[i]@));
    }
    let mut lines: Vec<String> = Vec::new();
    let mut i: usize = 0;
    proof {
        assert(items.skip(0) =~= items);
    }
    while i < entries.len()
        invariant
            i <= entries@.len(),
            items == Seq::new(entries@.len(), |k: int| entries@[k]@),
            items.len() == entries@.len(),
            Seq::new(lines@.len(), |k: int| lines@[k]@) + log_strings(items.skip(i as int))
                =~= log_strings(items),
        decreases entries@.len() - i,
    {
        proof {
            assert(items.skip(i as int).first() == items[i as int]);
            assert(items.skip(i as int).drop_first() =~= items.skip(i + 1));
        }
        match entries[i].as_str() {
            Some(s) => {
                lines.push(s.clone());
                proof {
                    assert(Seq::new(lines@.len(), |k: int| lines@[k]@) + log_strings(
                        items.skip(i + 1),
                    ) =~= log_strings(items));
                }
            },
            None => {
                proof {
                    assert(Seq::new(lines@.len(), |k: int| lines@[k]@) + log_strings(
                        items.skip(i + 1),
                    ) =~= log_strings(items));
                }
            },
        }
        i += 1;
    }
    proof {
        assert(items.skip(items.len() as int) =~= Seq::<JsonData>::empty());
        assert(log_strings(Seq::<JsonData>::empty()) =~= Seq::<Seq<char>>::empty());
        assert(Seq::new(lines@.len(), |k: int| lines@[k]@) =~= log_strings(items));
    }
    Ok(lines)
}

/// The parameters disposing the whole request context, with the reason when
/// one was given.
pub fn dispose_params(reason: Option<&str>) -> (r: JsonValue)
    ensures
        r@ == JsonData::Obj(
            match reason {
                Some(t) => seq![("reason"@, JsonData::Str(t@))],
                None => Seq::<(Seq<char>, JsonData)>::empty(),
            },
        ),
{
    let r = JsonValue::obj_new().with_opt_str_field("reason", reason);
    proof {
        assert(obj_fields(r@) =~= (match reason {
            Some(t) => seq![("reason"@, JsonData::Str(t@))],
            None => Seq::<(Seq<char>, JsonData)>::empty(),
        }));
    }
    r
}

/// The entry point for API testing: a handle on the playwright root node
/// that `newContext` calls for request contexts are addressed to.
pub struct APIRequest {
    pub playwright: String,
}

impl APIRequest {
    /// A handle addressed to the playwright node with this guid.
    pub fn new(playwright: String) -> (r: APIRequest)
        ensures
            r.playwright == playwright,
    {
        APIRequest { playwright }
    }
}

/// A handle on one isolated request context node.
pub struct APIRequestContext {
    pub guid: String,
}

impl APIRequestContext {
    /// A handle on the request context with this guid.
    pub fn new(guid: String) -> (r: APIRequestContext)
        ensures
            r.guid == guid,
    {
        APIRequestContext { guid }
    }

    /// A handle on the request context with this guid.
    pub fn try_new(guid: String) -> (r: APIRequestContext)
        ensures
            r.guid == guid,
    {
        APIRequestContext { guid }
    }
}

} // verus!
