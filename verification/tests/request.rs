use ferinth::request::{body_of, response_of, Method, Outcome, Request};
use ferinth::url_ext::RequestUrl;
use ferinth::structures::search::{Response, SearchHit};
use ferinth::CallError;

fn hit(id: &str) -> SearchHit {
    SearchHit { id: id.to_string() }
}

#[test]
fn a_failed_transport_is_a_transport_error() {
    let outcome = Outcome::Failed { reason: "connection refused".to_string() };
    assert_eq!(body_of(outcome), Err(CallError::Transport("connection refused".to_string())));
}

#[test]
fn a_successful_reply_hands_on_its_body() {
    for status in [200u16, 201, 204, 299] {
        let outcome = Outcome::Replied { status, body: "{\"hits\":[]}".to_string() };
        assert_eq!(body_of(outcome), Ok("{\"hits\":[]}".to_string()));
    }
}

#[test]
fn any_other_status_is_an_api_error_with_status_and_body() {
    for status in [0u16, 100, 199, 300, 301, 400, 404, 429, 500, 503, 599, 600, u16::MAX] {
        let outcome = Outcome::Replied { status, body: "not found".to_string() };
        assert_eq!(
            body_of(outcome),
            Err(CallError::Api { status, body: "not found".to_string() })
        );
    }
}

#[test]
fn a_body_that_did_not_decode_is_a_deserialization_error() {
    let body = body_of(Outcome::Replied { status: 200, body: "{\"hits\": [".to_string() }).unwrap();
    let failure = serde_json::from_str::<serde_json::Value>(&body).unwrap_err().to_string();
    assert_eq!(
        response_of(Err(failure.clone())),
        Err(CallError::Deserialization(failure))
    );
}

#[test]
fn a_decoded_response_is_returned_as_it_is() {
    let response = Response {
        hits: vec![hit("AANobbMI"), hit("P7dR8mSH")],
        offset: 0,
        limit: 10,
        total_hits: 2,
    };
    let result = response_of(Ok(response.clone())).unwrap();
    assert_eq!(result, response);
    assert_eq!(result.hits[0].id, "AANobbMI");
}

#[test]
fn no_body_is_decoded_after_a_failed_transport() {
    let outcome = Outcome::Failed { reason: "timed out".to_string() };
    let mut decoded = false;
    let result = body_of(outcome).and_then(|body| {
        decoded = true;
        response_of(Err(body))
    });
    assert_eq!(result, Err(CallError::Transport("timed out".to_string())));
    assert!(!decoded);
}

#[test]
fn a_get_request_keeps_its_url() {
    let url = RequestUrl::new("https://example.org/").with_query("a", "b");
    let request = Request::get(url.clone());
    assert_eq!(request.method, Method::Get);
    assert_eq!(request.url, url);
}

#[test]
fn a_parameter_that_is_no_json_is_a_serialization_error() {
    let mut keyed_by_pairs = std::collections::BTreeMap::new();
    keyed_by_pairs.insert((1, 2), 3);
    let failure = serde_json::to_string(&keyed_by_pairs).unwrap_err();
    assert_eq!(
        CallError::serialization(&failure),
        CallError::Serialization(failure.to_string())
    );
    assert_eq!(
        CallError::serialization(&failure),
        CallError::Serialization("key must be a string".to_string())
    );
}
