use north_pole::greeting::{hello_error, hello_world};
use north_pole::status::{PayloadError, BAD_REQUEST, INTERNAL_SERVER_ERROR};

#[test]
fn liveness_probe_greets() {
    assert_eq!(hello_world(), "Hello, world!");
}

#[test]
fn error_probe_answers_with_a_server_error() {
    assert_eq!(hello_error(), 500);
    assert_eq!(INTERNAL_SERVER_ERROR, 500);
}

#[test]
fn every_payload_error_is_the_same_client_error() {
    assert_eq!(BAD_REQUEST, 400);
    for reason in [
        PayloadError::MissingPayload,
        PayloadError::InvalidEncoding,
        PayloadError::InvalidText,
        PayloadError::MalformedRequest,
    ] {
        assert_eq!(reason.status(), 400);
    }
}
