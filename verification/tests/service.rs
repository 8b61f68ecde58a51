use todo_service::error::Error;
use todo_service::handlers::error_response;
use todo_service::handlers::finalize;
use todo_service::handlers::finish_request;
use todo_service::handlers::handle_create;
use todo_service::handlers::handle_delete;
use todo_service::handlers::handle_list;
use todo_service::items::TodoItems;
use todo_service::json::render_items_json;

#[test]
fn create_then_list_shows_the_item() {
    let mut store = TodoItems::new();
    let resp = handle_create(&mut store, String::from("Do the dishes")).unwrap();
    assert_eq!(resp.status, 200);
    assert!(resp.json);
    assert_eq!(resp.body, "0");
    let listed = handle_list(&store).unwrap();
    assert_eq!(listed.status, 200);
    assert!(listed.json);
    assert_eq!(listed.body, "{\"0\":\"Do the dishes\"}");
}

#[test]
fn list_of_empty_store_is_an_empty_object() {
    let store = TodoItems::new();
    assert_eq!(handle_list(&store).unwrap().body, "{}");
}

#[test]
fn list_keeps_ascending_id_order() {
    let mut store = TodoItems::new();
    handle_create(&mut store, String::from("a")).unwrap();
    handle_create(&mut store, String::from("b")).unwrap();
    handle_create(&mut store, String::from("c")).unwrap();
    assert_eq!(
        handle_list(&store).unwrap().body,
        "{\"0\":\"a\",\"1\":\"b\",\"2\":\"c\"}"
    );
}

#[test]
fn delete_of_non_numeric_id_is_a_bad_request() {
    let mut store = TodoItems::new();
    let r = handle_delete(&mut store, "abc");
    assert!(matches!(r, Err(Error::BadRequest)));
}

#[test]
fn delete_of_unknown_id_is_not_found() {
    let mut store = TodoItems::new();
    let r = handle_delete(&mut store, "999");
    assert!(matches!(r, Err(Error::NotFound)));
}

#[test]
fn delete_of_a_present_id_removes_it() {
    let mut store = TodoItems::new();
    handle_create(&mut store, String::from("Buy milk")).unwrap();
    let resp = handle_delete(&mut store, "0").unwrap();
    assert_eq!(resp.status, 200);
    assert_eq!(resp.body, "");
    assert!(!resp.json);
    let listed = handle_list(&store).unwrap();
    assert!(!listed.body.contains("\"0\""));
    assert_eq!(listed.body, "{}");
    let again = handle_delete(&mut store, "0");
    assert!(matches!(again, Err(Error::NotFound)));
}

#[test]
fn titles_are_json_escaped() {
    let mut store = TodoItems::new();
    handle_create(&mut store, String::from("say \"hi\"\n")).unwrap();
    assert_eq!(
        handle_list(&store).unwrap().body,
        "{\"0\":\"say \\\"hi\\\"\\n\"}"
    );
}

#[test]
fn unicode_titles_pass_verbatim() {
    let items = vec![(3, String::from("caf\u{e9} \u{2192}"))];
    assert_eq!(
        render_items_json(&items).unwrap(),
        "{\"3\":\"caf\u{e9} \u{2192}\"}"
    );
}

#[test]
fn empty_title_is_created_and_listed() {
    let mut store = TodoItems::new();
    let resp = handle_create(&mut store, String::new()).unwrap();
    assert_eq!(resp.body, "0");
    assert_eq!(handle_list(&store).unwrap().body, "{\"0\":\"\"}");
}

#[test]
fn error_statuses_and_bodies() {
    assert_eq!(Error::BadRequest.status(), 400);
    assert_eq!(Error::NotFound.status(), 404);
    assert_eq!(Error::SerializationFailure(String::from("x")).status(), 500);
    assert_eq!(Error::BadRequest.description(), "Bad request");
    assert_eq!(Error::NotFound.description(), "Resource not found");
    assert_eq!(
        Error::SerializationFailure(String::from("secret cause")).description(),
        "Serialization failure"
    );
}

#[test]
fn error_response_carries_status_and_description() {
    let resp = error_response(&Error::NotFound);
    assert_eq!(resp.status, 404);
    assert_eq!(resp.body, "Resource not found");
    assert!(!resp.json);
}

#[test]
fn finalize_forwards_success_untouched() {
    let mut store = TodoItems::new();
    let ok = handle_create(&mut store, String::from("t"));
    let (resp, err) = finalize(ok);
    assert_eq!(resp.status, 200);
    assert_eq!(resp.body, "0");
    assert!(err.is_none());
}

#[test]
fn finalize_converts_a_failure_exactly_once() {
    let (resp, err) = finalize(Err(Error::BadRequest));
    assert_eq!(resp.status, 400);
    assert_eq!(resp.body, "Bad request");
    assert!(matches!(err, Some(Error::BadRequest)));
}

#[test]
fn finish_request_pairs_the_response_with_its_one_log_line() {
    let mut store = TodoItems::new();
    let ok = handle_create(&mut store, String::from("walk the dog"));
    let (resp, line) = finish_request(ok, "POST", "/items", 10_500);
    assert_eq!(resp.status, 200);
    assert_eq!(line, "POST /items \u{2192} 200 OK in 0.010500ms");

    let (resp2, line2) = finish_request(Err(Error::NotFound), "DELETE", "/items/9", 2_000);
    assert_eq!(resp2.status, 404);
    assert_eq!(resp2.body, "Resource not found");
    assert_eq!(
        line2,
        "DELETE /items/9 \u{2192} 404 Not Found in 0.002000ms (NotFound)"
    );
}
