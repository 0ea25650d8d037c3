use fmod_audio::Status;

#[test]
fn success_code_is_ok() {
    assert_eq!(Status::result(0), Ok(()));
    assert_eq!(Status::from_code(0), Status::Success);
}

#[test]
fn file_codes_are_bank_io() {
    assert_eq!(Status::result(13), Err(Status::BankIO));
    assert_eq!(Status::result(18), Err(Status::BankIO));
    assert_eq!(Status::result(19), Err(Status::BankIO));
}

#[test]
fn event_not_found_code() {
    assert_eq!(Status::result(74), Err(Status::EventNotFound));
}

#[test]
fn invalid_handle_code() {
    assert_eq!(Status::result(30), Err(Status::InvalidHandle));
}

#[test]
fn uninitialized_codes_are_engine_unavailable() {
    assert_eq!(Status::result(67), Err(Status::EngineUnavailable));
    assert_eq!(Status::result(75), Err(Status::EngineUnavailable));
}

#[test]
fn invalid_string_code_is_string_encoding() {
    assert_eq!(Status::result(77), Err(Status::StringEncoding));
}

#[test]
fn other_codes_pass_through() {
    assert_eq!(Status::result(31), Err(Status::Native(31)));
    assert_eq!(Status::result(-5), Err(Status::Native(-5)));
}

#[test]
fn to_result_of_error_is_err() {
    assert_eq!(Status::Success.to_result(), Ok(()));
    assert_eq!(Status::InvalidParameterName.to_result(), Err(Status::InvalidParameterName));
}
