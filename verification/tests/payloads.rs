//! The plain request and response bodies.

use authcore::errors::ErrorJson;
use authcore::net::{NoncePayload, Pagination, UserAuth, UserAuthPayload};

#[test]
fn nonce_payload_carries_tag() {
    let p = NoncePayload::new("tag-value".to_string());
    assert_eq!(p.nonce, "tag-value");
}

#[test]
fn auth_payload_carries_token() {
    let p = UserAuthPayload::new("a.b.c".to_string());
    assert_eq!(p.token, "a.b.c");
}

#[test]
fn user_auth_fields() {
    let a = UserAuth { email: "a@b.c".to_string(), password: "pw".to_string() };
    assert_eq!(a.email, "a@b.c");
    assert_eq!(a.password, "pw");
}

#[test]
fn error_json_keeps_message() {
    let e = ErrorJson::new("Unauthorized".to_string());
    assert_eq!(e.message, "Unauthorized");
}

#[test]
fn pagination_defaults() {
    let p = Pagination { offset: None, limit: None };
    assert_eq!(p.get_offset(), 0);
    assert_eq!(p.get_limit(), 10);
    let q = Pagination { offset: Some(30), limit: Some(5) };
    assert_eq!(q.get_offset(), 30);
    assert_eq!(q.get_limit(), 5);
    let d = Pagination::default();
    assert_eq!(d.offset, Some(0));
    assert_eq!(d.limit, Some(10));
}
