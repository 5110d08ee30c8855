use wpm::wpm::{wpm_gross, wpm_net, WPM_CAP_CENTI};

#[test]
fn gross_formula_exact() {
    // 50 characters in one minute: 10 chars-as-words per minute = 10.00 WPM
    assert_eq!(wpm_gross(50, 60_000), 1000);
}

#[test]
fn net_formula_exact() {
    // 10.00 WPM gross minus 5 errors per minute = 5.00 WPM
    assert_eq!(wpm_net(50, 5, 60_000), 500);
}

#[test]
fn net_never_goes_negative() {
    assert_eq!(wpm_net(50, 50, 60_000), 0);
}

#[test]
fn speeds_clamp_to_display_range() {
    // sub-second durations and absurd rates read as the display cap
    assert_eq!(wpm_gross(50, 999), WPM_CAP_CENTI);
    assert_eq!(wpm_gross(1_000_000, 1000), WPM_CAP_CENTI);
    // a sub-second duration yields no net speed
    assert_eq!(wpm_net(50, 0, 999), 0);
}

#[test]
fn whole_seconds_count() {
    // 60.9 seconds counts as 60 whole seconds
    assert_eq!(wpm_gross(50, 60_900), 1000);
}
