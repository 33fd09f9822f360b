//! Calendar dates of timestamps.

use ucode_tui::date::format_date_from_secs;

#[test]
fn format_date_epoch() {
    // Unix epoch = 1970-01-01
    assert_eq!(format_date_from_secs(0), "1970-01-01");
}

#[test]
fn format_date_known_date() {
    // 2026-03-05 00:00:00 UTC
    // Days from epoch: computed manually.
    // 2026-03-05: let's verify with a known offset.
    // 2000-01-01 = 10957 days from epoch.
    // 2026 - 2000 = 26 years.
    // Leap years in [2000..2026): 2000,2004,2008,2012,2016,2020,2024 = 7 leap years
    // Non-leap: 26 - 7 = 19 years
    // Days: 7*366 + 19*365 = 2562 + 6935 = 9497 days from 2000-01-01
    // 2026-01-01 = 10957 + 9497 = 20454 days from epoch
    // Jan: 31, Feb: 28 (2026 not leap), Mar 1-5: 4 more days
    // 2026-03-05 = 20454 + 31 + 28 + 4 = 20517 days from epoch
    let secs = 20517u64 * 86_400;
    assert_eq!(format_date_from_secs(secs), "2026-03-05");
}
