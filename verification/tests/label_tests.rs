//! Exact values of the verified formatting helpers: decimals, hex,
//! relative-time labels, calendar formatting, and the small display enums.

use gecko_core::git::BranchType;
use gecko_core::model::Event;
use gecko_core::relative_time;
use gecko_core::text;
use gecko_core::time_utils;
use gecko_core::tree::Kind;

#[test]
fn decimal_rendering_is_exact() {
    assert_eq!(text::u64_to_dec(0), "0");
    assert_eq!(text::u64_to_dec(7), "7");
    assert_eq!(text::u64_to_dec(1234567890), "1234567890");
    assert_eq!(text::u64_to_dec(u64::MAX), "18446744073709551615");
    assert_eq!(text::i64_to_dec(-42), "-42");
    assert_eq!(text::i64_to_dec(i64::MIN), "-9223372036854775808");
    assert_eq!(text::i64_to_dec(33188), "33188");
}

#[test]
fn hex_rendering_is_exact() {
    assert_eq!(text::bytes_to_hex(&vec![0xbe, 0xef]), "beef");
    assert_eq!(text::bytes_to_hex(&vec![0x00, 0x0f, 0xa0]), "000fa0");
    assert_eq!(text::bytes_to_hex(&Vec::new()), "");
}

#[test]
fn string_order_and_trim_helpers() {
    assert!(text::str_le("a.txt", "b.txt"));
    assert!(!text::str_le("b", "a"));
    assert!(text::str_le("abc", "abc"));
    assert!(text::str_le("ab", "abc"));
    assert!(text::str_eq("x", "x"));
    assert!(!text::str_eq("x", "y"));
    assert_eq!(text::trim_nl_exec("\n\nx\n"), "x");
    assert_eq!(text::trim_nl_exec("plain"), "plain");
}

#[test]
fn relative_labels_follow_the_cascade() {
    let now = 1_700_000_000i64;
    let lbl = |delta: i64| time_utils::relative_label(now, now - delta);
    assert_eq!(lbl(0).as_deref(), Some("now"));
    assert_eq!(lbl(10).as_deref(), Some("now"));
    assert_eq!(lbl(45).as_deref(), Some("45 seconds ago"));
    assert_eq!(lbl(60 * 5).as_deref(), Some("5 minutes ago"));
    assert_eq!(lbl(3600 * 7).as_deref(), Some("7 hours ago"));
    assert_eq!(lbl(86400).as_deref(), Some("1 day ago"));
    assert_eq!(lbl(86400 * 5).as_deref(), Some("5 days ago"));
    assert_eq!(lbl(86400 * 7).as_deref(), Some("1 week ago"));
    assert_eq!(lbl(86400 * 16).as_deref(), Some("2 weeks ago"));
    assert_eq!(lbl(86400 * 29).as_deref(), Some("1 month ago"));
    assert_eq!(lbl(86400 * 65).as_deref(), Some("2 months ago"));
    assert_eq!(lbl(86400 * 360), None);
}

#[test]
fn plain_labels_follow_their_cascade() {
    let now = 1_700_000_000i64;
    let lbl = |delta: i64| relative_time::plain_label(now, now - delta);
    assert_eq!(lbl(3), "now");
    assert_eq!(lbl(30), "30 seconds ago");
    assert_eq!(lbl(60 * 59), "59 minutes ago");
    assert_eq!(lbl(3600 * 23), "23 hours ago");
    assert_eq!(lbl(86400 * 14), "14 days ago");
    assert_eq!(lbl(86400 * 90), "3 months ago");
    let huge = 86400 * 400i64;
    assert_eq!(lbl(huge), format!("{huge}"));
}

#[test]
fn calendar_formatting_matches_the_clock_library() {
    let ts = 1_700_000_000i64;
    let got = time_utils::to_datetime(ts, Some(90)).unwrap();
    let expected = {
        let t = time::OffsetDateTime::from_unix_timestamp(ts)
            .unwrap()
            .to_offset(time::UtcOffset::from_whole_seconds(90 * 60).unwrap());
        let desc = time::format_description::parse(
            "[month repr:short] [day], [year], [hour repr:12]:[minute] [period] GMT[offset_hour padding:none sign:mandatory]",
        )
        .unwrap();
        t.format(&desc).unwrap()
    };
    assert_eq!(got, expected);

    let got = time_utils::to_datetime_format(0, None, "[year]-[month]-[day]").unwrap();
    assert_eq!(got, "1970-01-01");
}

#[test]
fn calendar_formatting_rejects_out_of_range() {
    // Far outside the supported calendar.
    assert!(time_utils::to_datetime(i64::MAX, None).is_none());
    // The last supported UTC second, pushed past the boundary by an
    // eastward offset.
    assert!(time_utils::to_datetime(253402300799, Some(60)).is_none());
    assert!(time_utils::to_datetime_format(253402300799, Some(60), "[year]").is_none());
    // At the boundary itself both still format.
    assert!(time_utils::to_datetime(253402300799, None).is_some());
    assert!(time_utils::to_datetime(253402300799, Some(-60)).is_some());
}

#[test]
fn display_enums_keep_their_labels() {
    assert_eq!(Event::Login.to_str(), "user.login");
    assert_eq!(Event::Logout.to_str(), "user.logout");
    assert_eq!(Event::UpdatePassword.to_str(), "user.update_password");
    assert_eq!(Event::RepositoryCreate.to_str(), "repository.create");
    assert_eq!(Event::RepositoryDelete.to_str(), "repository.delete");
    assert_eq!(Kind::Tree.as_str(), "Tree");
    assert_eq!(Kind::File.as_str(), "Kind");
    assert_eq!(Kind::Submodule.as_str(), "Submodule");
    assert_eq!(BranchType::Local.as_str(), "Local");
    assert_eq!(BranchType::Remote.as_str(), "Remote");
}

#[test]
fn log_entries_format_their_timestamps() {
    let log = gecko_core::model::Log {
        event: String::from("user.login"),
        description: String::from("alice"),
        created_at: 0,
    };
    let dt = log.created_at_dt();
    let expected = time_utils::to_datetime(0, None).unwrap();
    assert_eq!(dt, expected);
    // The relative form ends in a calendar date for so old a timestamp.
    let rel = log.created_at();
    assert_eq!(rel, time_utils::to_datetime_format(0, None, "[month repr:short] [day], [year]").unwrap());
}
