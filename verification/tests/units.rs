use edge_runtime_core::units::{bytes_to_display, get_in_format, human_elapsed, mib_to_bytes, KIB, MIB};

#[test]
fn mib_to_bytes_basic() {
    assert_eq!(mib_to_bytes(1), 1_048_576);
    assert_eq!(mib_to_bytes(256), 268_435_456);
    assert_eq!(mib_to_bytes(0), 0);
}

#[test]
fn bytes_to_display_kib() {
    assert_eq!(bytes_to_display(1024), "1.00KiB");
    assert_eq!(bytes_to_display(512), "0.50KiB");
    assert_eq!(bytes_to_display(0), "0.00KiB");
}

#[test]
fn bytes_to_display_mib() {
    assert_eq!(bytes_to_display(MIB), "1.00MiB");
    assert_eq!(bytes_to_display(MIB * 256), "256.00MiB");
    assert_eq!(bytes_to_display(MIB + MIB / 2), "1.50MiB");
}

#[test]
fn human_elapsed_milliseconds() {
    assert_eq!(human_elapsed(0), "0ms");
    assert_eq!(human_elapsed(500), "500ms");
    assert_eq!(human_elapsed(999), "999ms");
}

#[test]
fn human_elapsed_seconds() {
    assert_eq!(human_elapsed(1000), "1s");
    assert_eq!(human_elapsed(5000), "5s");
    assert_eq!(human_elapsed(59_999), "59s");
}

#[test]
fn human_elapsed_minutes() {
    assert_eq!(human_elapsed(60_000), "1m0s");
    assert_eq!(human_elapsed(90_000), "1m30s");
    assert_eq!(human_elapsed(125_000), "2m5s");
}

#[test]
fn constants_correct() {
    assert_eq!(KIB, 1024);
    assert_eq!(MIB, 1024 * 1024);
}

#[test]
fn get_in_format_pads_the_fraction() {
    assert_eq!(get_in_format(1034, 1024, "KiB"), "1.00KiB");
    assert_eq!(get_in_format(1126, 1024, "KiB"), "1.09KiB");
    assert_eq!(get_in_format(7, 3, "x"), "2.33x");
}

#[test]
fn bytes_to_display_switches_unit_at_one_mib() {
    assert_eq!(bytes_to_display(MIB - 1), "1023.99KiB");
    assert_eq!(bytes_to_display(u64::MAX), "17592186044415.99MiB");
}

#[test]
fn human_elapsed_hours_stay_in_minutes() {
    assert_eq!(human_elapsed(3_600_000), "60m0s");
    assert_eq!(human_elapsed(u64::MAX), "307445734561825m51s");
}
