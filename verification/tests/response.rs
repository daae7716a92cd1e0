use tendermint_rpc::error::{Code, Error};
use tendermint_rpc::response::{Id, Version, Wrapper};

#[test]
fn result_is_handed_out() {
    let wrapper = Wrapper::new_with_id(Id::Num(1), Some(7_u32), None);
    assert_eq!(&Version::current(), wrapper.version());
    assert_eq!(&Id::Num(1), wrapper.id());
    assert_eq!(Ok(7), wrapper.into_result());
}

#[test]
fn carried_error_is_handed_out() {
    let carried = Error::new(Code::InvalidParams, "bad height");
    let wrapper: Wrapper<u32> =
        Wrapper::new_with_id(Id::Str("a".to_string()), None, Some(carried.clone()));
    assert_eq!(Err(carried), wrapper.into_result());
}

#[test]
fn envelope_with_neither_is_a_server_error() {
    let wrapper: Wrapper<u32> = Wrapper::new_with_id(Id::Num(2), None, None);
    let error = wrapper.into_result().unwrap_err();
    assert_eq!(Code::ServerError, error.code());
    assert_eq!(
        "server returned malformatted JSON (no 'result' or 'error')",
        error.message()
    );
}

#[test]
fn unsupported_version_is_refused_first() {
    let carried = Error::new(Code::InvalidParams, "bad height");
    for (result, error) in [
        (Some(7_u32), None),
        (None, Some(carried.clone())),
        (Some(7_u32), Some(carried.clone())),
        (None, None),
    ] {
        let wrapper = Wrapper::new(Version::new("1.0"), Id::Num(3), result, error);
        let error = wrapper.into_result().unwrap_err();
        assert_eq!(Code::ServerError, error.code());
        assert_eq!(
            "server RPC version unsupported: '1.0' (only '2.0' supported)",
            error.message()
        );
    }
}

#[test]
fn result_comes_before_error() {
    let carried = Error::new(Code::ServerError, "late");
    let wrapper = Wrapper::new(Version::new("2.0"), Id::Num(4), Some(1_u8), Some(carried));
    assert_eq!(Ok(1), wrapper.into_result());
}

#[test]
fn versions_and_ids_compare() {
    assert!(Version::current().is_supported());
    assert_eq!("2.0", Version::current().as_str());
    assert!(!Version::new("2.00").is_supported());
    assert!(Version::new("2.0").ensure_supported().is_ok());
    assert!(Version::new("").ensure_supported().is_err());
    assert!(Id::Num(5).same(&Id::Num(5)));
    assert!(!Id::Num(5).same(&Id::Num(6)));
    assert!(!Id::Num(5).same(&Id::Str("5".to_string())));
    assert!(Id::Str("x".to_string()).same(&Id::Str("x".to_string())));
    assert!(!Id::Str("x".to_string()).same(&Id::Str("y".to_string())));
}

#[test]
fn errors_carry_code_and_message() {
    assert_eq!(Code::ParseError, Error::parse_error("p").code());
    assert_eq!(Code::InvalidParams, Error::invalid_params("i").code());
    assert_eq!(Code::ServerError, Error::server_error("s").code());
    assert_eq!(Code::ConnectionClosed, Error::connection_closed("c").code());
    assert_eq!(
        Code::ClientInternalError,
        Error::client_internal_error("x").code()
    );
    assert_eq!("x", Error::client_internal_error("x").message());
}
