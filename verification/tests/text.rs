use todo_service::error::Error;
use todo_service::logger::format_elapsed_ms;
use todo_service::logger::format_log_line;
use todo_service::logger::status_text;
use todo_service::numbers::parse_u64;
use todo_service::numbers::u64_to_dec;

#[test]
fn decimal_rendering() {
    assert_eq!(u64_to_dec(0), "0");
    assert_eq!(u64_to_dec(7), "7");
    assert_eq!(u64_to_dec(10), "10");
    assert_eq!(u64_to_dec(1234567890), "1234567890");
    assert_eq!(u64_to_dec(u64::MAX), "18446744073709551615");
}

#[test]
fn parse_accepts_plain_numbers() {
    assert_eq!(parse_u64("0"), Some(0));
    assert_eq!(parse_u64("999"), Some(999));
    assert_eq!(parse_u64("007"), Some(7));
    assert_eq!(parse_u64("18446744073709551615"), Some(u64::MAX));
}

#[test]
fn parse_accepts_a_leading_plus() {
    assert_eq!(parse_u64("+12"), Some(12));
    assert_eq!(parse_u64("+"), None);
}

#[test]
fn parse_rejects_non_numbers() {
    assert_eq!(parse_u64(""), None);
    assert_eq!(parse_u64("abc"), None);
    assert_eq!(parse_u64("1a"), None);
    assert_eq!(parse_u64("-1"), None);
    assert_eq!(parse_u64(" 1"), None);
    assert_eq!(parse_u64("1.5"), None);
}

#[test]
fn parse_rejects_overflow() {
    assert_eq!(parse_u64("18446744073709551616"), None);
    assert_eq!(parse_u64("99999999999999999999999"), None);
}

#[test]
fn elapsed_time_has_six_fractional_digits() {
    assert_eq!(format_elapsed_ms(0), "0.000000");
    assert_eq!(format_elapsed_ms(28_068), "0.028068");
    assert_eq!(format_elapsed_ms(1_500_000), "1.500000");
    assert_eq!(format_elapsed_ms(37_205), "0.037205");
}

#[test]
fn status_lines() {
    assert_eq!(status_text(200), "200 OK");
    assert_eq!(status_text(400), "400 Bad Request");
    assert_eq!(status_text(404), "404 Not Found");
    assert_eq!(status_text(500), "500 Internal Server Error");
    assert_eq!(status_text(418), "418");
}

#[test]
fn log_line_on_success() {
    let line = format_log_line("POST", "http://localhost:3000/items", 200, 28_068, None);
    assert_eq!(line, "POST http://localhost:3000/items \u{2192} 200 OK in 0.028068ms");
}

#[test]
fn log_line_on_failure_names_the_kind() {
    let err = Error::BadRequest;
    let line = format_log_line(
        "DELETE",
        "http://localhost:3000/items/text",
        400,
        31_282,
        Some(&err),
    );
    assert_eq!(
        line,
        "DELETE http://localhost:3000/items/text \u{2192} 400 Bad Request in 0.031282ms (BadRequest)"
    );
}

#[test]
fn log_label_keeps_the_serialization_detail() {
    let err = Error::SerializationFailure(String::from("buffer torn"));
    assert_eq!(err.log_label(), "SerializationFailure(buffer torn)");
    assert_eq!(Error::NotFound.log_label(), "NotFound");
}
