use ryzenmaster_monitor::transport::{judge, write_accepted, Probe, Verdict};

#[test]
fn write_counts_only_when_whole() {
    // The whole report: the report id and the 64 bytes of the frame.
    assert!(write_accepted(true, 65));
    assert!(!write_accepted(true, 64));
    assert!(!write_accepted(true, 63));
    assert!(!write_accepted(true, 66));
    assert!(!write_accepted(true, 0));
    assert!(!write_accepted(false, 65));
    assert!(!write_accepted(false, 0));
}

#[test]
fn only_the_matching_open_interface_is_taken() {
    let vid = 0x3633;
    let pid = 0x000A;
    let opened = |attributes_read, vendor_id, product_id| Probe::Opened {
        attributes_read,
        vendor_id,
        product_id,
    };
    assert_eq!(judge(opened(true, vid, pid), vid, pid), Verdict::Take);
    assert_eq!(judge(opened(false, vid, pid), vid, pid), Verdict::CloseAndSkip);
    assert_eq!(judge(opened(true, vid, 0x000B), vid, pid), Verdict::CloseAndSkip);
    assert_eq!(judge(opened(true, 0x3634, pid), vid, pid), Verdict::CloseAndSkip);
    assert_eq!(judge(opened(true, pid, vid), vid, pid), Verdict::CloseAndSkip);
}

#[test]
fn an_interface_that_never_opened_is_skipped() {
    for probe in [Probe::SizeUnknown, Probe::DetailUnavailable, Probe::OpenRefused] {
        assert_eq!(judge(probe, 0x3633, 0x000A), Verdict::Skip);
    }
}
