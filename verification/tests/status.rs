use ryzenmaster_monitor::status::{status_message, ProviderStatus};

#[test]
fn status_messages_by_code() {
    assert_eq!(status_message(0), "ok");
    assert_eq!(status_message(1), "invalid argument");
    assert_eq!(status_message(2), "admin privileges required");
    assert_eq!(status_message(3), "unsupported Windows version");
    assert_eq!(status_message(4), "non-AMD CPU detected");
    assert_eq!(status_message(5), "Ryzen Master driver missing or failed to start");
    assert_eq!(status_message(6), "unsupported CPU model");
    assert_eq!(status_message(7), "allocation failure");
    assert_eq!(status_message(8), "SDK initialization failed");
    assert_eq!(status_message(9), "telemetry read failed");
    assert_eq!(status_message(10), "unknown error");
    assert_eq!(status_message(-1), "unknown error");
    assert_eq!(status_message(i32::MAX), "unknown error");
}

#[test]
fn status_codes_round_trip() {
    for code in [-5, -1, 0, 1, 2, 3, 4, 5, 6, 7, 8, 9, 10, 1000, i32::MIN, i32::MAX] {
        assert_eq!(ProviderStatus::from_code(code).code(), code);
    }
}

#[test]
fn status_classification() {
    assert_eq!(ProviderStatus::from_code(0), ProviderStatus::Success);
    assert_eq!(ProviderStatus::from_code(1), ProviderStatus::InvalidArg);
    assert_eq!(ProviderStatus::from_code(2), ProviderStatus::NotAdmin);
    assert_eq!(ProviderStatus::from_code(3), ProviderStatus::UnsupportedOs);
    assert_eq!(ProviderStatus::from_code(4), ProviderStatus::NotAmd);
    assert_eq!(ProviderStatus::from_code(5), ProviderStatus::DriverMissing);
    assert_eq!(ProviderStatus::from_code(6), ProviderStatus::UnsupportedCpu);
    assert_eq!(ProviderStatus::from_code(7), ProviderStatus::AllocFailed);
    assert_eq!(ProviderStatus::from_code(8), ProviderStatus::InitFailed);
    assert_eq!(ProviderStatus::from_code(9), ProviderStatus::ReadFailed);
    assert_eq!(ProviderStatus::from_code(42), ProviderStatus::Unknown(42));
}

#[test]
fn only_the_success_code_is_ok() {
    assert!(ProviderStatus::Success.is_ok());
    assert!(!ProviderStatus::ReadFailed.is_ok());
    assert!(!ProviderStatus::Unknown(-3).is_ok());
    // Only the success value itself is a success, whatever code a status carries.
    assert!(!ProviderStatus::Unknown(0).is_ok());
    assert!(ProviderStatus::from_code(0).is_ok());
    for code in [-1, 1, 9, 10, i32::MIN, i32::MAX] {
        assert!(!ProviderStatus::from_code(code).is_ok());
    }
    assert_eq!(ProviderStatus::DriverMissing.message(), status_message(5));
    assert_eq!(ProviderStatus::Unknown(77).message(), "unknown error");
    assert_eq!(ProviderStatus::Unknown(5).message(), "unknown error");
    for code in -3..14 {
        assert_eq!(ProviderStatus::from_code(code).message(), status_message(code));
    }
}
