use bell::tester::{
    basic_verdict, classify_close, on_closed_signal, parse_tester_arguments, ApplicationOptions,
    BasicVerdict, CloseReport,
};

fn args(v: &[&str]) -> Vec<String> {
    v.iter().map(|s| (*s).to_owned()).collect()
}

#[test]
fn default_runs_only_basic_tests() {
    let o = ApplicationOptions::default();
    assert!(o.basic && !o.basic_notification && !o.expire_timeout && !o.multiple_notifications);
}

#[test]
fn enable_all_runs_everything() {
    let mut o = ApplicationOptions::default();
    o.enable_all();
    assert_eq!(
        o,
        ApplicationOptions { basic: true, basic_notification: true, expire_timeout: true, multiple_notifications: true }
    );
}

#[test]
fn tester_flags() {
    let p = parse_tester_arguments(&args(&["--no-basic", "--expire-timeout", "--bogus"]));
    assert_eq!(
        p.options,
        Some(ApplicationOptions { basic: false, basic_notification: false, expire_timeout: true, multiple_notifications: false })
    );
    assert_eq!(p.unrecognized, args(&["--bogus"]));
    let p = parse_tester_arguments(&args(&["--all", "--help", "--bogus"]));
    assert_eq!(p.options, None);
    assert!(p.unrecognized.is_empty());
}

#[test]
fn close_reasons_are_described() {
    assert_eq!(classify_close(1), CloseReport::Expired);
    assert_eq!(classify_close(2), CloseReport::Dismissed);
    assert_eq!(classify_close(3), CloseReport::Requested);
    assert_eq!(classify_close(u32::MAX), CloseReport::NoSignal);
    assert_eq!(classify_close(4), CloseReport::Unknown(4));
    assert_eq!(basic_verdict(Some(1)), BasicVerdict::ExpiredNeverExpiring);
    assert_eq!(basic_verdict(Some(3)), BasicVerdict::Proper);
    assert_eq!(basic_verdict(None), BasicVerdict::PossiblyUnreported);
    assert_eq!(basic_verdict(Some(u32::MAX)), BasicVerdict::PossiblyUnreported);
}

#[test]
fn only_the_awaited_close_is_recorded() {
    assert_eq!(on_closed_signal(4, 2, 4, u32::MAX), (2, false));
    assert_eq!(on_closed_signal(5, 2, 4, u32::MAX), (u32::MAX, true));
}
