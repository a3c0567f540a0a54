use statusbar::metrics::{get_bat_percent, get_bat_status, get_cpu_temperature, RawMetrics};
use statusbar::numbers::u128_to_dec;
use statusbar::reading::{read_file_content, read_file_to_num, StatusBarError};
use statusbar::render::{fmt_bar, fmt_bat, fmt_cpu, render_with_time};

fn some(s: &str) -> Option<String> {
    Some(s.to_string())
}

fn raw(
    temp: Option<&str>,
    energy_full: Option<&str>,
    energy_now: Option<&str>,
    charge_full: Option<&str>,
    charge_now: Option<&str>,
    status: Option<&str>,
) -> RawMetrics {
    RawMetrics {
        temp_input: temp.map(|s| s.to_string()),
        energy_full: energy_full.map(|s| s.to_string()),
        energy_now: energy_now.map(|s| s.to_string()),
        charge_full: charge_full.map(|s| s.to_string()),
        charge_now: charge_now.map(|s| s.to_string()),
        status: status.map(|s| s.to_string()),
    }
}

fn all_present() -> RawMetrics {
    raw(
        Some("45000\n"),
        Some("5000\n"),
        Some("2500\n"),
        None,
        None,
        Some("Discharging\n"),
    )
}

#[test]
fn content_strips_trailing_newline() {
    assert_eq!(read_file_content(&some("45000\n")), Ok("45000".to_string()));
}

#[test]
fn content_without_newline_is_unchanged() {
    assert_eq!(read_file_content(&some("45000")), Ok("45000".to_string()));
}

#[test]
fn content_strips_only_one_newline() {
    assert_eq!(read_file_content(&some("abc\n\n")), Ok("abc\n".to_string()));
}

#[test]
fn empty_content_does_not_panic() {
    assert_eq!(read_file_content(&some("")), Ok("".to_string()));
}

#[test]
fn unreadable_content_is_io_error() {
    assert_eq!(read_file_content(&None), Err(StatusBarError::IoError));
}

#[test]
fn numeric_read_returns_the_integer() {
    assert_eq!(read_file_to_num(&some("2500\n")), Ok(2500));
    assert_eq!(read_file_to_num(&some("45000\n")), Ok(45000));
    assert_eq!(read_file_to_num(&some("0\n")), Ok(0));
    assert_eq!(read_file_to_num(&some("007\n")), Ok(7));
}

#[test]
fn numeric_read_handles_signed_text() {
    assert_eq!(read_file_to_num(&some("-5000\n")), Ok(-5000));
}

#[test]
fn numeric_read_accepts_largest_width() {
    assert_eq!(
        read_file_to_num(&some("999999999999999999\n")),
        Ok(999_999_999_999_999_999)
    );
    assert_eq!(
        read_file_to_num(&some("-999999999999999999\n")),
        Ok(-999_999_999_999_999_999)
    );
}

#[test]
fn numeric_read_without_newline() {
    assert_eq!(read_file_to_num(&some("360")), Ok(360));
}

#[test]
fn malformed_number_is_convert_error() {
    assert_eq!(
        read_file_to_num(&some("abc\n")),
        Err(StatusBarError::TypeConvertError)
    );
    assert_eq!(
        read_file_to_num(&some("\n")),
        Err(StatusBarError::TypeConvertError)
    );
    assert_eq!(
        read_file_to_num(&some("-\n")),
        Err(StatusBarError::TypeConvertError)
    );
    assert_eq!(
        read_file_to_num(&some("12 5\n")),
        Err(StatusBarError::TypeConvertError)
    );
}

#[test]
fn oversized_number_is_convert_error() {
    assert_eq!(
        read_file_to_num(&some("9999999999999999999\n")),
        Err(StatusBarError::TypeConvertError)
    );
}

#[test]
fn missing_numeric_source_is_io_error() {
    assert_eq!(read_file_to_num(&None), Err(StatusBarError::IoError));
}

#[test]
fn status_discharging_is_bat() {
    assert_eq!(
        get_bat_status(&some("Discharging\n")),
        Ok("BAT".to_string())
    );
}

#[test]
fn status_charging_is_chr() {
    assert_eq!(get_bat_status(&some("Charging\n")), Ok("CHR".to_string()));
}

#[test]
fn status_other_texts_are_pwr() {
    assert_eq!(get_bat_status(&some("Full\n")), Ok("PWR".to_string()));
    assert_eq!(get_bat_status(&some("Unknown\n")), Ok("PWR".to_string()));
    assert_eq!(
        get_bat_status(&some("Not charging\n")),
        Ok("PWR".to_string())
    );
    assert_eq!(get_bat_status(&some("")), Ok("PWR".to_string()));
    assert_eq!(get_bat_status(&some("discharging\n")), Ok("PWR".to_string()));
}

#[test]
fn status_unreadable_is_io_error() {
    assert_eq!(get_bat_status(&None), Err(StatusBarError::IoError));
}

#[test]
fn percent_from_energy_pair() {
    let m = all_present();
    assert_eq!(get_bat_percent(&m), Ok(5000));
}

#[test]
fn percent_prefers_energy_over_charge() {
    let m = raw(
        None,
        Some("5000\n"),
        Some("2500\n"),
        Some("4000\n"),
        Some("4000\n"),
        None,
    );
    assert_eq!(get_bat_percent(&m), Ok(5000));
}

#[test]
fn percent_falls_back_to_whole_charge_pair() {
    let m = raw(
        None,
        None,
        Some("3\n"),
        Some("4\n"),
        Some("4\n"),
        None,
    );
    assert_eq!(get_bat_percent(&m), Ok(10000));
}

#[test]
fn percent_falls_back_on_malformed_energy() {
    let m = raw(
        None,
        Some("x\n"),
        Some("30\n"),
        Some("40\n"),
        Some("10\n"),
        None,
    );
    assert_eq!(get_bat_percent(&m), Ok(2500));
}

#[test]
fn percent_fails_when_each_pair_is_incomplete() {
    let m = raw(None, None, Some("3\n"), Some("4\n"), None, None);
    assert_eq!(get_bat_percent(&m), Err(StatusBarError::IoError));
}

#[test]
fn percent_fails_when_both_pairs_missing() {
    let m = raw(None, None, None, None, None, None);
    assert_eq!(get_bat_percent(&m), Err(StatusBarError::IoError));
}

#[test]
fn percent_fails_when_now_missing_everywhere() {
    let m = raw(None, Some("5000\n"), None, None, None, None);
    assert_eq!(get_bat_percent(&m), Err(StatusBarError::IoError));
}

#[test]
fn percent_rejects_zero_capacity() {
    let m = raw(None, Some("0\n"), Some("1\n"), None, None, None);
    assert_eq!(get_bat_percent(&m), Err(StatusBarError::TypeConvertError));
}

#[test]
fn percent_rejects_negative_charge() {
    let m = raw(None, Some("5000\n"), Some("-1\n"), None, None, None);
    assert_eq!(get_bat_percent(&m), Err(StatusBarError::TypeConvertError));
}

#[test]
fn percent_rounds_to_nearest_hundredth() {
    let m = raw(None, Some("3\n"), Some("1\n"), None, None, None);
    assert_eq!(get_bat_percent(&m), Ok(3333));
    let m = raw(None, Some("3\n"), Some("2\n"), None, None, None);
    assert_eq!(get_bat_percent(&m), Ok(6667));
}

#[test]
fn temperature_is_millidegrees() {
    assert_eq!(get_cpu_temperature(&some("45000\n")), Ok(45000));
}

#[test]
fn cpu_fragment_divides_by_thousand() {
    let m = all_present();
    assert_eq!(fmt_cpu(&m), Some("CPU: 45C".to_string()));
}

#[test]
fn cpu_fragment_rounds_to_nearest_degree() {
    let m = raw(Some("45999\n"), None, None, None, None, None);
    assert_eq!(fmt_cpu(&m), Some("CPU: 46C".to_string()));
    let m = raw(Some("45499\n"), None, None, None, None, None);
    assert_eq!(fmt_cpu(&m), Some("CPU: 45C".to_string()));
}

#[test]
fn cpu_fragment_breaks_ties_to_even() {
    let m = raw(Some("45500\n"), None, None, None, None, None);
    assert_eq!(fmt_cpu(&m), Some("CPU: 46C".to_string()));
    let m = raw(Some("44500\n"), None, None, None, None, None);
    assert_eq!(fmt_cpu(&m), Some("CPU: 44C".to_string()));
}

#[test]
fn cpu_fragment_omitted_when_unreadable() {
    let m = raw(None, None, None, None, None, None);
    assert_eq!(fmt_cpu(&m), None);
}

#[test]
fn cpu_fragment_omitted_below_zero() {
    let m = raw(Some("-5000\n"), None, None, None, None, None);
    assert_eq!(fmt_cpu(&m), None);
}

#[test]
fn bat_fragment_with_both_parts() {
    let m = all_present();
    assert_eq!(fmt_bat(&m), Some("BAT: 50.00%".to_string()));
}

#[test]
fn bat_fragment_uses_na_sentinel() {
    let m = raw(None, Some("5000\n"), Some("2500\n"), None, None, None);
    assert_eq!(fmt_bat(&m), Some("NA: 50.00%".to_string()));
}

#[test]
fn bat_fragment_uses_percent_sentinel() {
    let m = raw(None, None, None, None, None, Some("Charging\n"));
    assert_eq!(fmt_bat(&m), Some("CHR: -1.00%".to_string()));
}

#[test]
fn bat_fragment_pads_fraction() {
    let m = raw(None, Some("10000\n"), Some("10\n"), None, None, Some("Full\n"));
    assert_eq!(fmt_bat(&m), Some("PWR: 0.10%".to_string()));
}

#[test]
fn scenario_all_sources_present() {
    let m = all_present();
    let time = "2024-01-02 03:04:05 +0000";
    assert_eq!(
        render_with_time(&m, time),
        "CPU: 45C | BAT: 50.00% | 2024-01-02 03:04:05 +0000"
    );
    let out = fmt_bar(&m);
    assert!(out.contains("CPU: 45C"));
    assert!(out.contains("BAT: 50.00%"));
    let stamp = out.rsplit(" | ").next().unwrap();
    assert!(chrono::DateTime::parse_from_str(stamp, "%Y-%m-%d %H:%M:%S %z").is_ok());
}

#[test]
fn scenario_missing_hwmon_omits_cpu() {
    let m = raw(
        None,
        Some("5000\n"),
        Some("2500\n"),
        None,
        None,
        Some("Discharging\n"),
    );
    let time = "2024-01-02 03:04:05 +0000";
    assert_eq!(
        render_with_time(&m, time),
        "BAT: 50.00% | 2024-01-02 03:04:05 +0000"
    );
}

#[test]
fn scenario_full_status_renders_pwr() {
    let m = raw(
        Some("45000\n"),
        Some("5000\n"),
        Some("2500\n"),
        None,
        None,
        Some("Full\n"),
    );
    let out = fmt_bar(&m);
    assert!(out.contains("PWR: 50.00%"));
}

#[test]
fn repeated_renders_agree_before_the_time() {
    let m = all_present();
    let a = render_with_time(&m, "2024-01-02 03:04:05 +0000");
    let b = render_with_time(&m, "2030-12-31 23:59:59 -0800");
    let cut = a.len() - "2024-01-02 03:04:05 +0000".len();
    assert_eq!(a[..cut], b[..cut]);
    let out1 = fmt_bar(&m);
    let out2 = fmt_bar(&m);
    assert!(out1.starts_with("CPU: 45C | BAT: 50.00% | "));
    assert!(out2.starts_with("CPU: 45C | BAT: 50.00% | "));
}

#[test]
fn decimal_rendering_is_exact() {
    assert_eq!(u128_to_dec(0), "0");
    assert_eq!(u128_to_dec(7), "7");
    assert_eq!(u128_to_dec(1234567890), "1234567890");
    assert_eq!(u128_to_dec(u128::MAX), "340282366920938463463374607431768211455");
}
