//! The four route handlers' decision logic, and the single conversion from
//! a failure to the response sent to the client. Each handler reads or
//! mutates the store and produces a finished response or a typed failure;
//! no status-code choice is made anywhere else.

use vstd::prelude::*;
use crate::error::Error;
use crate::items::TodoItems;
use crate::json::items_json;
use crate::json::render_items_json;
use crate::numbers::dec_str;
use crate::numbers::dec_val;
use crate::numbers::digits_part;
use crate::numbers::is_u64_text;
use crate::numbers::lemma_dec_val_nonneg;
use crate::numbers::parse_u64;
use crate::numbers::u64_to_dec;
use crate::logger::format_log_line;
use crate::logger::log_line;

verus! {

/// A finished HTTP response: the status, the body, and whether the body is
/// JSON (so the transport can set the content type).
pub struct HttpResponse {
    pub status: u16,
    pub body: String,
    pub json: bool,
}

/// Lists all items: a 200 response whose body is the JSON object mapping
/// each stringified id to its title, in ascending id order.
pub fn handle_list(items: &TodoItems) -> (r: Result<HttpResponse, Error>)
    ensures
        r matches Ok(resp) ==> resp.status == 200 && resp.json && resp.body@ == items_json(
            items.entry_seq(),
        ),
        r is Ok,
{
    let listed = items.list();
    proof {
        assert(listed@.map_values(|p: (u64, String)| (p.0, p.1@)) =~= items.entry_seq());
    }
    match render_items_json(&listed) {
        Ok(body) => Ok(HttpResponse { status: 200, body, json: true }),
        Err(e) => Err(e),
    }
}

/// Creates an item whose title is the request body, as it came (any text,
/// the empty text included): a 200 response whose body is the issued id as
/// a JSON number.
pub fn handle_create(items: &mut TodoItems, title: String) -> (r: Result<HttpResponse, Error>)
    requires
        old(items).wf(),
        old(items).spec_next_id() < u64::MAX,
    ensures
        final(items).wf(),
        final(items).spec_next_id() == old(items).spec_next_id() + 1,
        final(items).entry_seq() == old(items).entry_seq().push(
            (old(items).spec_next_id(), title@),
        ),
        r matches Ok(resp) ==> resp.status == 200 && resp.json && resp.body@ == dec_str(
            old(items).spec_next_id() as nat,
        ),
        r is Ok,
{
    let id = items.insert(title);
    let body = u64_to_dec(id);
    Ok(HttpResponse { status: 200, body, json: true })
}

/// Deletes the item the path segment names. The segment must read as an
/// unsigned 64-bit integer, else the request is bad; the id must be
/// present, else nothing is found; otherwise the item goes and a 200
/// response with an empty body comes back.
pub fn handle_delete(items: &mut TodoItems, id_text: &str) -> (r: Result<HttpResponse, Error>)
    requires
        old(items).wf(),
    ensures
        final(items).wf(),
        final(items).spec_next_id() == old(items).spec_next_id(),
        !is_u64_text(id_text@) ==> (r matches Err(e) && e == Error::BadRequest && *final(items)
            == *old(items)),
        is_u64_text(id_text@) ==> {
            let id = dec_val(digits_part(id_text@)) as u64;
            if old(items).contains_id(id) {
                &&& r matches Ok(resp)
                &&& resp.status == 200
                &&& !resp.json
                &&& resp.body@ == Seq::<char>::empty()
                &&& final(items).entry_seq() == old(items).entry_seq().remove(
                    old(items).idx_of(id),
                )
            } else {
                r matches Err(e) && e == Error::NotFound && *final(items) == *old(items)
            }
        },
{
    proof {
        if is_u64_text(id_text@) {
            lemma_dec_val_nonneg(digits_part(id_text@));
        }
    }
    let id = match parse_u64(id_text) {
        Some(id) => id,
        None => {
            return Err(Error::BadRequest);
        },
    };
    match items.remove(id) {
        Some(_) => Ok(HttpResponse { status: 200, body: String::new(), json: false }),
        None => Err(Error::NotFound),
    }
}

/// The one conversion from a failure to the response the client sees: the
/// kind's status, the kind's generic description as the body.
pub fn error_response(e: &Error) -> (r: HttpResponse)
    ensures
        r.status == e.spec_status(),
        r.body@ == e.spec_description(),
        !r.json,
{
    HttpResponse { status: e.status(), body: e.description(), json: false }
}

/// The outermost step of the pipeline: a handler's outcome becomes the
/// response that is sent, paired with the failure (if any) kept for the
/// log. A response is always produced — a failure shapes it but is never
/// re-raised past this point.
pub fn finalize(r: Result<HttpResponse, Error>) -> (out: (HttpResponse, Option<Error>))
    ensures
        r matches Ok(resp) ==> out.0 == resp && out.1 is None,
        r matches Err(e) ==> out.0.status == e.spec_status() && out.0.body@
            == e.spec_description() && !out.0.json && (out.1 matches Some(e2) && e2 == e),
{
    match r {
        Ok(resp) => (resp, None),
        Err(e) => {
            let resp = error_response(&e);
            (resp, Some(e))
        },
    }
}

/// Completes one request: every outcome, success or failure, becomes the
/// one response that is sent together with the one log line that reports
/// it. The line names the same status the response carries, and the
/// failure's kind when there was one; the elapsed time is a nanosecond
/// count, never negative by its type.
pub fn finish_request(
    outcome: Result<HttpResponse, Error>,
    method: &str,
    url: &str,
    elapsed_ns: u64,
) -> (out: (HttpResponse, String))
    ensures
        outcome matches Ok(resp) ==> out.0 == resp && out.1@ == log_line(
            method@,
            url@,
            resp.status,
            elapsed_ns as nat,
            Option::None,
        ),
        outcome matches Err(e) ==> out.0.status == e.spec_status() && out.0.body@
            == e.spec_description() && !out.0.json && out.1@ == log_line(
            method@,
            url@,
            e.spec_status(),
            elapsed_ns as nat,
            Option::Some(e),
        ),
{
    let (resp, err) = finalize(outcome);
    let line = match &err {
        None => format_log_line(method, url, resp.status, elapsed_ns, None),
        Some(e) => format_log_line(method, url, resp.status, elapsed_ns, Some(e)),
    };
    (resp, line)
}

} // verus!
