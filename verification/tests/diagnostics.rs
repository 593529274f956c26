use ryzenmaster_monitor::diagnostics::{is_error, notice_message};
use ryzenmaster_monitor::monitor::Notice;
use ryzenmaster_monitor::status::{status_message, ProviderStatus};

#[test]
fn nothing_has_no_line() {
    assert_eq!(notice_message(Notice::Nothing), None);
    assert!(!is_error(Notice::Nothing));
}

#[test]
fn readiness_lines() {
    assert_eq!(
        notice_message(Notice::ProviderReady).as_deref(),
        Some("ryzenmaster-monitor: telemetry ready")
    );
    assert_eq!(
        notice_message(Notice::DeviceReady).as_deref(),
        Some("ryzenmaster-monitor: USB HID ready")
    );
    assert!(!is_error(Notice::ProviderReady));
    assert!(!is_error(Notice::DeviceReady));
}

#[test]
fn provider_failures_carry_text_and_code() {
    for code in [-7, 1, 2, 5, 9, 10, 123456, i32::MIN, i32::MAX] {
        let status = ProviderStatus::from_code(code);
        let text = status_message(code);
        assert_eq!(
            notice_message(Notice::ProviderInitFailed(status)),
            Some(format!("ryzenmaster-monitor: telemetry init failed: {} ({})", text, code))
        );
        assert_eq!(
            notice_message(Notice::ReadFailed(status)),
            Some(format!("ryzenmaster-monitor: telemetry read failed: {} ({})", text, code))
        );
        assert_eq!(
            notice_message(Notice::ReadFailedAfterRetry(status)),
            Some(format!(
                "ryzenmaster-monitor: telemetry read failed after retry: {} ({})",
                text, code
            ))
        );
        assert!(is_error(Notice::ReadFailed(status)));
        assert!(is_error(Notice::ReadFailedAfterRetry(status)));
        assert!(is_error(Notice::ProviderInitFailed(status)));
    }
}

#[test]
fn device_lines() {
    assert_eq!(
        notice_message(Notice::DeviceNotFound { vendor_id: 0x3633, product_id: 0x000A }).as_deref(),
        Some("ryzenmaster-monitor: USB HID device not found (vid=0x3633 pid=0x000a)")
    );
    for (v, p) in [(0u16, 0u16), (0xFFFF, 0xABCD), (0x1, 0x10), (0x0100, 0x9f0e)] {
        assert_eq!(
            notice_message(Notice::DeviceNotFound { vendor_id: v, product_id: p }),
            Some(format!(
                "ryzenmaster-monitor: USB HID device not found (vid=0x{v:04x} pid=0x{p:04x})"
            ))
        );
    }
    assert_eq!(
        notice_message(Notice::DeviceInitFailed).as_deref(),
        Some("ryzenmaster-monitor: USB HID init failed, running without USB output")
    );
    assert_eq!(
        notice_message(Notice::DeviceLost).as_deref(),
        Some("ryzenmaster-monitor: USB HID write failed, disabling USB output")
    );
    assert!(is_error(Notice::DeviceLost));
    assert!(is_error(Notice::DeviceInitFailed));
    assert!(is_error(Notice::DeviceNotFound { vendor_id: 1, product_id: 2 }));
}
