use capto::envelope::{ApiError, Envelope, ExitCode};

#[test]
fn exit_codes_have_stable_numbers() {
    let all = [
        (ExitCode::Success, 0),
        (ExitCode::Usage, 1),
        (ExitCode::DesktopUnavailable, 2),
        (ExitCode::StateConflict, 3),
        (ExitCode::Capture, 4),
        (ExitCode::Encode, 5),
        (ExitCode::ConfigIo, 6),
    ];
    for (code, n) in all {
        assert_eq!(code.as_i32(), n);
    }
}

#[test]
fn envelopes_carry_data_or_error() {
    let ok = Envelope::ok(7u32);
    assert!(ok.ok && ok.data == Some(7) && ok.error.is_none());
    let err = Envelope::<u32>::err("badRequest", "nope");
    assert!(!err.ok && err.data.is_none());
    let e = err.error.unwrap();
    assert_eq!((e.code.as_str(), e.message.as_str()), ("badRequest", "nope"));
    let from_ok = Envelope::from_result(Ok::<u32, ApiError>(3));
    assert!(from_ok.ok && from_ok.data == Some(3));
    let from_err = Envelope::<u32>::from_result(Err(ApiError::new("capture", "no display")));
    assert!(!from_err.ok && from_err.data.is_none());
    assert_eq!(from_err.error.unwrap().message, "no display");
}
