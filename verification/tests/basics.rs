use bambu_overlay::retry::Backoff;
use bambu_overlay::table::{NameSet, Table};
use bambu_overlay::text;
use bambu_overlay::time::{is_regular, Instant, FIRST_SECOND, LAST_SECOND};

#[test]
fn white_space_is_what_unicode_says() {
    for code in 0..=0x10ffff_u32 {
        if let Some(c) = char::from_u32(code) {
            assert_eq!(text::is_white_space(c), c.is_whitespace(), "{code:x}");
        }
    }
}

#[test]
fn ascii_case_is_folded_as_std_does() {
    for code in 0..=0x10ffff_u32 {
        if let Some(c) = char::from_u32(code) {
            assert_eq!(text::lower_char(c), c.to_ascii_lowercase());
            assert_eq!(text::upper_char(c), c.to_ascii_uppercase());
        }
    }
    assert_eq!(text::to_lower("A\u{c9}z"), "a\u{c9}z");
    assert_eq!(text::to_upper("a\u{e9}Z"), "A\u{e9}Z");
    assert!(text::same_ignoring_case("VerifyCode", "verifycode"));
    assert!(!text::same_ignoring_case("\u{c9}", "\u{e9}"));
}

const SAMPLES: [&str; 9] =
    ["", " ", "a", " a\u{3000}", "a,b", ",", ",,", "a,,b,c", "\u{1f5a8},\u{85}x "];

#[test]
fn texts_are_taken_apart_as_std_does() {
    for sample in SAMPLES {
        assert_eq!(text::trim(sample), sample.trim());
        assert_eq!(text::split(sample, ','), sample.split(',').collect::<Vec<_>>());
        assert_eq!(text::split_once(sample, ','), sample.split_once(','));
        assert_eq!(text::count_char(sample, ','), sample.matches(',').count());
        assert_eq!(text::contains_char(sample, ','), sample.contains(','));
        assert_eq!(text::trim_start_matches(sample, ','), sample.trim_start_matches(','));
        assert_eq!(text::trim_end_matches(sample, ','), sample.trim_end_matches(','));
        assert_eq!(text::strip_prefix(sample, "a,"), sample.strip_prefix("a,"));
        assert_eq!(text::starts_with(sample, "a,"), sample.starts_with("a,"));
        assert_eq!(text::replace_char(sample, ',', "--"), sample.replace(',', "--"));
        assert_eq!(text::chars_of(sample), sample.chars().collect::<Vec<_>>());
        for n in 1..4 {
            assert_eq!(text::splitn(sample, n, ','), sample.splitn(n, ',').collect::<Vec<_>>());
        }
    }
}

#[test]
fn numbers_are_written_and_read_as_std_does() {
    for n in [0_u128, 7, 10, 99, 100, u64::MAX as u128, u128::MAX] {
        assert_eq!(text::decimal_text(n), n.to_string());
    }
    for n in [0_i128, -1, i64::MIN as i128, i64::MAX as i128] {
        assert_eq!(text::signed_text(n), n.to_string());
    }
    for sample in ["0", "007", "+8", "+", "-1", "", "65535", "65536", "1e3", "\u{661}", "99999999999"] {
        assert_eq!(
            text::parse_unsigned(sample, u16::MAX as u64),
            sample.parse::<u16>().ok().map(u64::from)
        );
    }
}

#[test]
fn names_are_kept_once() {
    let mut set = NameSet::new();
    assert_eq!(set.len(), 0);
    assert!(set.insert("a".to_owned()));
    assert!(!set.insert("a".to_owned()));
    assert_eq!(set.len(), 1);
    assert!(set.contains("a"));
    assert!(!set.contains("b"));
    let copy = set.clone();
    set.insert("b".to_owned());
    assert_eq!(set.len(), 2);
    assert_eq!(copy.len(), 1);
    assert!(!copy.contains("b"));

    let mut table: Table<u32> = Table::new();
    table.insert("a".to_owned(), 1);
    table.insert("a".to_owned(), 2);
    table.insert("b".to_owned(), 3);
    assert_eq!(table.get("a"), Some(&2));
    assert_eq!(table.remove("a"), Some(2));
    assert_eq!(table.remove("a"), None);
    assert!(!table.contains_key("a"));
    assert!(table.contains_key("b"));
}

#[test]
fn calendar_ends_where_chrono_ends() {
    let at = |secs: i64| chrono::DateTime::from_timestamp(secs, 0);
    assert!(at(FIRST_SECOND).is_some());
    assert!(at(FIRST_SECOND - 1).is_none());
    assert!(at(LAST_SECOND).is_some());
    assert!(at(LAST_SECOND + 1).is_none());
    assert!(is_regular(&Instant { secs: LAST_SECOND, nanos: 999_999_999 }));
    assert!(!is_regular(&Instant { secs: LAST_SECOND, nanos: 1_000_000_000 }));
}

#[test]
fn instants_are_moved_and_measured() {
    let start = Instant { secs: 0, nanos: 500_000_000 };
    let later = start.plus_seconds(90);
    assert_eq!(later, Instant { secs: 90, nanos: 500_000_000 });
    assert_eq!(later.seconds_since(start), 90);
    assert_eq!(Instant { secs: 2, nanos: 0 }.seconds_since(start), 1);
    assert_eq!(start.seconds_since(Instant { secs: 2, nanos: 0 }), -1);
    assert_eq!(start.to_rfc3339(), "1970-01-01T00:00:00.500+00:00");
}

#[test]
fn waits_begin_again_after_success() {
    let mut delay = Backoff::starting_with(30);
    delay.lengthen();
    assert_eq!(delay.nanos(), 30_000_000_000);
    let mut delay = Backoff::starting_with(2);
    delay.lengthen();
    delay.lengthen();
    assert_eq!(delay.nanos(), 4_500_000_000);
    delay.reset();
    assert_eq!(delay.nanos(), 2_000_000_000);
}

#[test]
fn leap_seconds_are_counted_by_the_time_of_day() {
    let leap = Instant { secs: 1_435_708_799, nanos: 1_500_000_000 };
    let before = Instant { secs: 1_435_705_200, nanos: 0 };
    let next_day = Instant { secs: 1_435_712_400, nanos: 0 };
    assert_eq!(leap.seconds_since(before), 3600);
    assert_eq!(before.seconds_since(leap), -3600);
    assert_eq!(next_day.seconds_since(leap), 3599);
    assert_eq!(leap.seconds_since(next_day), -3599);

    let leap = Instant { secs: 45_299, nanos: 1_500_000_000 };
    assert_eq!(Instant { secs: 45_300, nanos: 0 }.seconds_since(leap), 0);
    assert_eq!(Instant { secs: 45_301, nanos: 0 }.seconds_since(leap), 1);
    assert_eq!(leap.seconds_since(Instant { secs: 45_301, nanos: 0 }), -1);
    assert_eq!(leap.seconds_since(Instant { secs: 45_299, nanos: 0 }), 1);
}
