use wasm_bench::config::{count_or, module_format, switch_on, HostArgs, MeasureSettings, ModuleFormat};
use wasm_bench::text::{parse_u16, parse_u64, text_is};
use wasm_bench::timing::{dur_us, TimeSpan};

#[test]
fn switch_accepts_exactly_five_words() {
    for w in ["1", "true", "TRUE", "yes", "YES"] {
        assert!(switch_on(Some(w)), "{w}");
    }
    for w in ["0", "True", "Yes", "on", "", " 1", "1 ", "yes!"] {
        assert!(!switch_on(Some(w)), "{w}");
    }
    assert!(!switch_on(None));
}

#[test]
fn counts_read_unsigned_decimals() {
    assert_eq!(count_or(Some("42"), 1), 42);
    assert_eq!(count_or(Some("+7"), 1), 7);
    assert_eq!(count_or(Some("007"), 1), 7);
    assert_eq!(count_or(Some("18446744073709551615"), 1), u64::MAX);
    assert_eq!(count_or(None, 9), 9);
}

#[test]
fn counts_fall_back_on_bad_text() {
    for w in ["", "+", "-1", "-0", "1.5", " 5", "5 ", "18446744073709551616", "1e3", "٣"] {
        assert_eq!(count_or(Some(w), 3), 3, "{w}");
    }
}

#[test]
fn parsing_agrees_with_std() {
    for w in ["0", "+0", "65535", "65536", "", "+", "++1", "12a", "99999999999999999999", "-3"] {
        assert_eq!(parse_u64(w), w.parse::<u64>().ok(), "{w}");
        assert_eq!(parse_u16(w), w.parse::<u16>().ok(), "{w}");
    }
}

#[test]
fn text_is_compares_whole_words() {
    assert!(text_is("wasm", &['w', 'a', 's', 'm']));
    assert!(!text_is("wasm2", &['w', 'a', 's', 'm']));
    assert!(!text_is("was", &['w', 'a', 's', 'm']));
    assert!(text_is("", &[]));
}

#[test]
fn settings_from_environment_values() {
    let s = MeasureSettings::new(Some("1"), Some("yes"), Some("1000"), Some("5"));
    assert!(s.startup_enabled());
    assert!(s.per_request_enabled());
    assert!(!s.samples(5));
    assert!(!s.samples(1004));
    assert!(s.samples(1005));
    assert!(s.samples(2005));
}

#[test]
fn settings_default_when_unset() {
    let s = MeasureSettings::new(None, None, None, None);
    assert!(!s.startup_enabled());
    assert!(!s.per_request_enabled());
    // every request is sampled, none are warm-up
    assert!(s.samples(1));
    assert!(s.samples(2));
}

#[test]
fn sampling_interval_is_at_least_one() {
    let s = MeasureSettings::new(None, Some("1"), Some("0"), Some("2"));
    assert!(!s.samples(1));
    assert!(!s.samples(2));
    assert!(s.samples(3));
    assert!(s.samples(4));
}

#[test]
fn sampling_reports_one_in_every() {
    let s = MeasureSettings::new(None, Some("1"), Some("3"), Some("10"));
    let reported = (1..=40u64).filter(|&n| s.samples(n)).count();
    // requests 11..=40 are 30 after the warm-up: 10 are reported
    assert_eq!(reported, 10);
    assert!(s.samples(13));
    assert!(!s.samples(12));
}

#[test]
fn host_args_defaults() {
    let a = HostArgs::from_args(None, None);
    assert_eq!(a.wasm_path, "guest.cwasm");
    assert_eq!(a.port, 8080);
}

#[test]
fn host_args_read_path_and_port() {
    let a = HostArgs::from_args(Some("../guest_cpu_hash.wasm".to_string()), Some("9000"));
    assert_eq!(a.wasm_path, "../guest_cpu_hash.wasm");
    assert_eq!(a.port, 9000);
    assert_eq!(HostArgs::from_args(None, Some("70000")).port, 8080);
    assert_eq!(HostArgs::from_args(None, Some("http")).port, 8080);
    assert_eq!(HostArgs::from_args(None, Some("+80")).port, 80);
    assert_eq!(HostArgs::from_args(None, Some("65535")).port, 65535);
}

#[test]
fn module_format_by_extension() {
    assert_eq!(module_format("wasm"), Some(ModuleFormat::Wasm));
    assert_eq!(module_format("cwasm"), Some(ModuleFormat::Cwasm));
    assert_eq!(module_format("WASM"), None);
    assert_eq!(module_format("wat"), None);
    assert_eq!(module_format(""), None);
}

#[test]
fn microseconds_of_spans() {
    assert_eq!(dur_us(TimeSpan::zero()), 0);
    assert_eq!(dur_us(TimeSpan::from_secs_nanos(1, 500_000)), 1_000_500);
    assert_eq!(dur_us(TimeSpan::from_secs_nanos(0, 999)), 0);
    assert_eq!(dur_us(TimeSpan::from_secs_nanos(0, 2_000_001_000)), 2_000_001);
    let d = std::time::Duration::new(12, 345_678_901);
    assert_eq!(dur_us(TimeSpan::from_secs_nanos(d.as_secs(), d.subsec_nanos())), d.as_micros());
    assert_eq!(dur_us(TimeSpan::from_secs_nanos(u64::MAX, 999_999_999)), std::time::Duration::new(u64::MAX, 999_999_999).as_micros());
}
