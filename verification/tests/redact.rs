use capto::redact::{redact, REQUEST_ID_HEADER};

#[test]
fn masks_bearer_tokens() {
    assert_eq!(
        redact("Authorization: Bearer deadbeef1234 failed"),
        "Authorization: Bearer *** failed"
    );
    assert_eq!(redact("Bearer x"), "Bearer ***");
}

#[test]
fn masks_query_secrets() {
    assert_eq!(
        redact("GET /v1/status?token=abc123&x=1"),
        "GET /v1/status?token=***&x=1"
    );
    assert_eq!(
        redact("url=https://h/api?secret=s3cr3t"),
        "url=https://h/api?secret=***"
    );
    assert_eq!(redact("a=1&password=hunter2;b=2"), "a=1&password=***;b=2");
}

#[test]
fn leaves_benign_text_alone() {
    // "secretly" must not be matched (not a `key=` segment).
    assert_eq!(redact("secretly passwordless"), "secretly passwordless");
    // Unknown keys keep their values.
    assert_eq!(redact("?page=2&sort=asc"), "?page=2&sort=asc");
    // Empty string is fine.
    assert_eq!(redact(""), "");
}

#[test]
fn masks_every_bearer_and_every_secret_in_one_line() {
    assert_eq!(
        redact("Bearer a\tBearer b ?api_key=k;session=s&x=1 token=t"),
        "Bearer ***\tBearer *** ?api_key=***;session=***&x=1 token=t"
    );
    // A key must follow a delimiter (or the start): `access_token` is its
    // own key, `xtoken` is not one.
    assert_eq!(redact("?xtoken=v&access_token=w"), "?xtoken=v&access_token=***");
}

#[test]
fn bearer_without_value_and_non_ascii_text() {
    assert_eq!(redact("Bearer "), "Bearer ***");
    assert_eq!(redact("héllo Bearer 秘密 wörld"), "héllo Bearer *** wörld");
    assert_eq!(redact("Bearer\u{3000}x"), "Bearer\u{3000}x");
}

#[test]
fn request_id_header_name() {
    assert_eq!(REQUEST_ID_HEADER, "x-request-id");
}

#[test]
fn redacting_twice_changes_nothing_more() {
    let samples = [
        "Authorization: Bearer deadbeef1234 failed",
        "GET /v1/status?token=abc123&x=1",
        "?token=Bearer abc def&key=1;sig=2",
        "Bearer x ?api_key=k Bearer",
        "tokentoken=1&secretly=2;secret=3",
        "plain text",
    ];
    for s in samples {
        let once = redact(s);
        assert_eq!(redact(&once), once, "{s}");
    }
    assert_eq!(redact("?token=Bearer abc def&key=1;sig=2"), "?token=***&key=***;sig=***");
}
