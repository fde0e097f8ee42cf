//! Turning a route and its draft into a request for an executor, and the
//! executor's answer into what the viewer shows.
use vstd::prelude::*;
use crate::app::{method_name, BodyType, KVRow, RequestDraft};
use crate::executor::{error_text, ExecuteRequest, ExecuteResponse, ExecutorError};
use crate::keyed::KeyedList;
use crate::scanner::RouteInfo;
use crate::text::{chars_of, concat, string_from, string_of, trim_end_chars, trim_end_char, trim_start_chars, trim_start_char};

verus! {

/// A response as the viewer receives it.
#[derive(Debug, Clone)]
pub struct HttpResponse {
    pub status_code: u16,
    /// Milliseconds from sending the request to the last body byte.
    pub latency_ms: u128,
    pub size_bytes: usize,
    pub content_type: String,
    pub body: String,
}

/// The request URL: the base without trailing slashes, then, unless the
/// route path is only slashes, one slash and the path without its leading
/// slashes.
pub open spec fn join_url(base: Seq<char>, path: Seq<char>) -> Seq<char> {
    let b = trim_end_char(base, '/');
    let p = trim_start_char(path, '/');
    if p.len() == 0 {
        b
    } else {
        b + seq!['/'] + p
    }
}

/// The key/value pairs of the enabled rows with a non-empty key, in order.
pub open spec fn active_pairs(rows: Seq<KVRow>) -> Seq<(Seq<char>, Seq<char>)>
    decreases rows.len(),
{
    if rows.len() == 0 {
        Seq::empty()
    } else {
        let r = rows.last();
        let rest = active_pairs(rows.drop_last());
        if r.enabled && r.key.text@.len() > 0 {
            rest.push((r.key.text@, r.value.text@))
        } else {
            rest
        }
    }
}

/// The texts of a list of string pairs.
pub open spec fn text_pairs(e: Seq<(String, String)>) -> Seq<(Seq<char>, Seq<char>)> {
    e.map_values(|p: (String, String)| (p.0@, p.1@))
}

/// The content type announced for a body type.
pub open spec fn content_type_for(b: BodyType) -> Option<Seq<char>> {
    match b {
        BodyType::Json => Some("application/json"@),
        BodyType::Text => Some("text/plain"@),
        BodyType::FormUrlEncoded => Some("application/x-www-form-urlencoded"@),
        BodyType::NoBody => None,
    }
}

/// The header insertions of a draft: its active header rows, then its
/// active Auth rows (each an authentication header, such as
/// `Authorization` with its raw value `Bearer <token>`), then the content
/// type of a non-empty body.
pub open spec fn request_headers(d: RequestDraft) -> Seq<(Seq<char>, Seq<char>)> {
    let base = active_pairs(d.headers@) + active_pairs(d.auth@);
    if d.body.text@.len() > 0 {
        match content_type_for(d.body_type) {
            Some(ct) => base.push(("Content-Type"@, ct)),
            None => base,
        }
    } else {
        base
    }
}

/// Adds the active rows to a map: enabled rows with a non-empty key, a
/// later row overriding an earlier one with the same key.
fn add_active_rows(m: &mut KeyedList<String>, rows: &Vec<KVRow>)
    ensures
        text_pairs(final(m).entries@) == text_pairs(old(m).entries@) + active_pairs(rows@),
{
    let ghost start = text_pairs(m.entries@);
    let mut i: usize = 0;
    assert(active_pairs(rows@.take(0)) =~= Seq::<(Seq<char>, Seq<char>)>::empty());
    assert(start + active_pairs(rows@.take(0)) =~= start);
    while i < rows.len()
        invariant
            i <= rows.len(),
            text_pairs(m.entries@) == start + active_pairs(rows@.take(i as int)),
        decreases rows.len() - i,
    {
        let r = &rows[i];
        proof {
            assert(rows@.take(i + 1).drop_last() =~= rows@.take(i as int));
        }
        if r.enabled && !r.key.text.as_str().is_empty() {
            let ghost before = m.entries@;
            m.insert(r.key.text.clone(), r.value.text.clone());
            proof {
                assert(text_pairs(m.entries@) =~= text_pairs(before).push((r.key.text@, r.value.text@)));
                assert(start + active_pairs(rows@.take(i + 1)) =~= (start + active_pairs(rows@.take(i as int))).push(
                    (r.key.text@, r.value.text@),
                ));
            }
        }
        i += 1;
    }
    assert(rows@.take(rows.len() as int) =~= rows@);
}

/// The map of the active rows: enabled rows with a non-empty key, a later
/// row overriding an earlier one with the same key.
fn active_rows(rows: &Vec<KVRow>) -> (m: KeyedList<String>)
    ensures
        text_pairs(m.entries@) == active_pairs(rows@),
{
    let mut m: KeyedList<String> = KeyedList::new();
    add_active_rows(&mut m, rows);
    assert(text_pairs(Seq::<(String, String)>::empty()) + active_pairs(rows@) =~= active_pairs(rows@));
    m
}

/// The request that a route and its draft describe: the route's method, the
/// draft's base URL joined with the route path, the active header rows,
/// then the active Auth rows as headers, the active parameter rows, the body when it is not empty (announcing its content
/// type), and a 30 second timeout.
pub fn build_execute_request(route: &RouteInfo, draft: &RequestDraft) -> (r: ExecuteRequest)
    ensures
        r.method@ == method_name(route.method),
        r.url@ == join_url(draft.base_url.text@, route.path@),
        text_pairs(r.headers.entries@) == request_headers(*draft),
        text_pairs(r.query_params.entries@) == active_pairs(draft.params@),
        match r.body {
            Some(b) => draft.body.text@.len() > 0 && b@ == draft.body.text@,
            None => draft.body.text@.len() == 0,
        },
        r.timeout_ms == Some(30000u64),
{
    let base = trim_end_chars(chars_of(draft.base_url.text.as_str()).as_slice(), '/');
    let path = trim_start_chars(chars_of(route.path.as_str()).as_slice(), '/');
    let url = if path.len() == 0 {
        string_of(base.as_slice())
    } else {
        let mut u = base;
        u.push('/');
        let mut i: usize = 0;
        while i < path.len()
            invariant
                i <= path.len(),
                u@ == trim_end_char(draft.base_url.text@, '/') + seq!['/'] + path@.take(i as int),
            decreases path.len() - i,
        {
            u.push(path[i]);
            assert(path@.take(i + 1) =~= path@.take(i as int).push(path@[i as int]));
            i += 1;
        }
        assert(path@.take(path.len() as int) =~= path@);
        string_of(u.as_slice())
    };

    let mut headers = active_rows(&draft.headers);
    add_active_rows(&mut headers, &draft.auth);
    let query_params = active_rows(&draft.params);

    let body = if draft.body.text.as_str().is_empty() {
        None
    } else {
        let ct = match draft.body_type {
            BodyType::Json => Some("application/json"),
            BodyType::Text => Some("text/plain"),
            BodyType::FormUrlEncoded => Some("application/x-www-form-urlencoded"),
            BodyType::NoBody => None,
        };
        match ct {
            Some(ct) => {
                let ghost before = headers.entries@;
                let name = string_from("Content-Type");
                let value = string_from(ct);
                headers.insert(name, value);
                proof {
                    assert(text_pairs(headers.entries@) =~= text_pairs(before).push((name@, value@)));
                }
            },
            None => {},
        }
        Some(draft.body.text.clone())
    };

    ExecuteRequest {
        method: string_from(route.method.as_str()),
        url,
        headers,
        query_params,
        body,
        timeout_ms: Some(30000),
    }
}

/// The content type that a response announces: the value of its
/// "content-type" header, or "text/plain" without one.
pub open spec fn response_content_type(headers: Map<Seq<char>, String>) -> Seq<char> {
    if headers.contains_key("content-type"@) {
        headers["content-type"@]@
    } else {
        "text/plain"@
    }
}

/// What the viewer shows of an executor's response, with the latency
/// measured around the call.
pub fn response_to_http(response: ExecuteResponse, latency_ms: u128) -> (r: HttpResponse)
    ensures
        r.status_code == response.status,
        r.latency_ms == latency_ms,
        r.size_bytes == response.size_bytes,
        r.content_type@ == response_content_type(response.headers@),
        r.body == response.body,
{
    let content_type = match response.headers.get("content-type") {
        Some(v) => v.clone(),
        None => string_from("text/plain"),
    };
    HttpResponse {
        status_code: response.status,
        latency_ms,
        size_bytes: response.size_bytes,
        content_type,
        body: response.body,
    }
}

/// The message shown when the executor fails.
pub fn execution_error_message(e: &ExecutorError) -> (s: String)
    ensures
        s@ == "Execution error: "@ + error_text(*e),
{
    let t = e.to_string();
    concat("Execution error: ", t.as_str())
}

} // verus!
