//! The request log line. For every request exactly one line is emitted by
//! the transport wrapper: method, URL, resolved status, elapsed time and,
//! on failure, the failure's kind. This module pins the line's exact text;
//! the clock readings and the writing to standard output stay outside the
//! library.

use vstd::prelude::*;
use vstd::string::StringExecFns;
use crate::error::Error;
use crate::numbers::dec_str;
use crate::numbers::digit_char;
use crate::numbers::u64_to_dec;

verus! {

/// The low-order `w` decimal digits of a number, zero-padded to width `w`.
pub open spec fn dec_str_pad(n: nat, w: nat) -> Seq<char>
    decreases w,
{
    if w == 0 {
        Seq::empty()
    } else {
        dec_str_pad(n / 10, (w - 1) as nat) + seq![digit_char((n % 10) as int)]
    }
}

/// An elapsed time in milliseconds with six fractional digits, from a
/// nanosecond count.
pub open spec fn ms_text(ns: nat) -> Seq<char> {
    dec_str((ns / 1000000) as nat) + seq!['.'] + dec_str_pad((ns % 1000000) as nat, 6)
}

/// The status line text for the statuses this service resolves, the code
/// followed by the reason phrase; any other code stands as its number.
pub open spec fn status_text_spec(status: u16) -> Seq<char> {
    if status == 200 {
        "200 OK"@
    } else if status == 400 {
        "400 Bad Request"@
    } else if status == 404 {
        "404 Not Found"@
    } else if status == 500 {
        "500 Internal Server Error"@
    } else {
        dec_str(status as nat)
    }
}

/// One structured log line: method, URL, an arrow, the resolved status, the
/// elapsed time, and the failure's label when the request failed.
pub open spec fn log_line(
    method: Seq<char>,
    url: Seq<char>,
    status: u16,
    elapsed_ns: nat,
    err: Option<Error>,
) -> Seq<char> {
    let base = method + " "@ + url + " → "@ + status_text_spec(status) + " in "@ + ms_text(
        elapsed_ns,
    ) + "ms"@;
    match err {
        Option::None => base,
        Option::Some(e) => base + " ("@ + e.spec_log_label() + ")"@,
    }
}

/// The low-order `w` digits of a number, zero-padded.
fn u64_to_dec_pad(n: u64, w: usize) -> (r: String)
    ensures
        r@ == dec_str_pad(n as nat, w as nat),
    decreases w,
{
    if w == 0 {
        String::new()
    } else {
        let mut s = u64_to_dec_pad(n / 10, w - 1);
        s.append(crate::numbers::digit_str(n % 10));
        proof {
            assert(s@ =~= dec_str_pad(n as nat, w as nat));
        }
        s
    }
}

/// Renders a nanosecond count as milliseconds with six fractional digits.
pub fn format_elapsed_ms(ns: u64) -> (r: String)
    ensures
        r@ == ms_text(ns as nat),
{
    let mut s = u64_to_dec(ns / 1000000);
    s.append(".");
    let f = u64_to_dec_pad(ns % 1000000, 6);
    s.append(f.as_str());
    proof {
        reveal_strlit(".");
        assert(s@ =~= ms_text(ns as nat));
    }
    s
}

/// Renders a status code with its reason phrase.
pub fn status_text(status: u16) -> (r: String)
    ensures
        r@ == status_text_spec(status),
{
    if status == 200 {
        String::from_str("200 OK")
    } else if status == 400 {
        String::from_str("400 Bad Request")
    } else if status == 404 {
        String::from_str("404 Not Found")
    } else if status == 500 {
        String::from_str("500 Internal Server Error")
    } else {
        u64_to_dec(status as u64)
    }
}

/// Renders the one log line for a finished request. The elapsed time is a
/// count of nanoseconds, never negative by its type.
pub fn format_log_line(
    method: &str,
    url: &str,
    status: u16,
    elapsed_ns: u64,
    err: Option<&Error>,
) -> (r: String)
    ensures
        r@ == log_line(
            method@,
            url@,
            status,
            elapsed_ns as nat,
            match err {
                Option::Some(e) => Option::Some(*e),
                Option::None => Option::None,
            },
        ),
{
    let mut s = String::from_str(method);
    s.append(" ");
    s.append(url);
    s.append(" → ");
    let st = status_text(status);
    s.append(st.as_str());
    s.append(" in ");
    let ms = format_elapsed_ms(elapsed_ns);
    s.append(ms.as_str());
    s.append("ms");
    match err {
        None => {},
        Some(e) => {
            s.append(" (");
            let label = e.log_label();
            s.append(label.as_str());
            s.append(")");
        },
    }
    s
}

} // verus!
