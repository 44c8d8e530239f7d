//! Dates and plain text.

use potsworth::date::{iso, parse_date, pretty, pretty_iso, today};
use potsworth::text::{parse_u64, precedes, same, to_decimal, trim, white};

fn kept(raw: &str) -> Option<String> {
    parse_date(raw).map(iso)
}

#[test]
fn dates_are_read_and_kept() {
    assert_eq!(kept("2026/08/22").as_deref(), Some("2026/08/22"));
    assert_eq!(kept("2026/8/2").as_deref(), Some("2026/08/02"));
    assert_eq!(kept("  2026/08/22\n").as_deref(), Some("2026/08/22"));
    assert_eq!(kept("\u{3000}2026/ 8/\t2\u{a0}").as_deref(), Some("2026/08/02"));
    assert_eq!(kept("5/01/01").as_deref(), Some("0005/01/01"));
    assert_eq!(kept("0000/02/29").as_deref(), Some("0000/02/29"));
    assert_eq!(kept("2024/02/29").as_deref(), Some("2024/02/29"));
    assert_eq!(kept("2000/02/29").as_deref(), Some("2000/02/29"));
}

#[test]
fn signed_years_have_any_width() {
    assert_eq!(kept("+2026/08/22").as_deref(), Some("2026/08/22"));
    assert_eq!(kept("+0002026/08/22").as_deref(), Some("2026/08/22"));
    assert_eq!(kept("+10000/01/01").as_deref(), Some("+10000/01/01"));
    assert_eq!(kept("-1/12/31").as_deref(), Some("-0001/12/31"));
    assert_eq!(kept("-0/01/01").as_deref(), Some("0000/01/01"));
    assert_eq!(kept("-4/02/29").as_deref(), Some("-0004/02/29"));
    assert_eq!(kept("+262142/12/31").as_deref(), Some("+262142/12/31"));
    assert_eq!(kept("-262143/01/01").as_deref(), Some("-262143/01/01"));
}

#[test]
fn other_texts_are_no_dates() {
    for raw in [
        "",
        "   ",
        "tomorrow",
        "2026-08-22",
        "2026/08",
        "2026/08/22/",
        "2026/08/22 x",
        "2026/08/22/1",
        "2026//22",
        "/08/22",
        "2026/08/",
        "2026 /08/22",
        "2026/08 /22",
        "02026/08/22",
        "10000/01/01",
        "2026/008/22",
        "2026/08/022",
        "2026/8/+2",
        "+ 2026/08/22",
        "++2026/08/22",
        "+/08/22",
        "2026/00/10",
        "2026/13/01",
        "2026/08/00",
        "2026/08/32",
        "2026/04/31",
        "2023/02/29",
        "1900/02/29",
        "+262143/01/01",
        "-262144/12/31",
        "+99999999999999999999/01/01",
        "٢٠٢٦/٠٨/٢٢",
    ] {
        assert!(parse_date(raw).is_none(), "{raw}");
    }
}

#[test]
fn kept_dates_are_read_back() {
    for year in [-262143, -1, 0, 1, 999, 1000, 2026, 9999, 10000, 262142] {
        for (month, day) in [(1, 1), (2, 28), (8, 22), (12, 31)] {
            let sign = if year < 0 { "-" } else { "+" };
            let raw = format!("{sign}{}/{month}/{day}", i32::abs(year));
            let first = kept(&raw).unwrap();
            assert_eq!(kept(&first), Some(first.clone()));
        }
    }
}

#[test]
fn dates_for_people() {
    for (raw, shown) in [
        ("2026/08/22", "Sat 22 Aug 2026"),
        ("2026/01/01", "Thu 01 Jan 2026"),
        ("2024/02/29", "Thu 29 Feb 2024"),
        ("2000/03/01", "Wed 01 Mar 2000"),
        ("1900/04/30", "Mon 30 Apr 1900"),
        ("0001/01/01", "Mon 01 Jan 0001"),
        ("0000/12/31", "Sun 31 Dec 0000"),
        ("2025/05/06", "Tue 06 May 2025"),
        ("2025/06/06", "Fri 06 Jun 2025"),
        ("2025/07/05", "Sat 05 Jul 2025"),
        ("2025/09/07", "Sun 07 Sep 2025"),
        ("2025/10/08", "Wed 08 Oct 2025"),
        ("2025/11/10", "Mon 10 Nov 2025"),
        ("+10000/01/01", "Sat 01 Jan +10000"),
        ("-1/01/01", "Fri 01 Jan -0001"),
    ] {
        assert_eq!(pretty(parse_date(raw).unwrap()), shown);
        assert_eq!(pretty_iso(raw), shown);
    }
    assert_eq!(pretty_iso("some day"), "some day");
    assert_eq!(pretty_iso(" 2026/8/22 "), "Sat 22 Aug 2026");
}

/// The day of the week from the number of the day, counted from a Monday.
fn weekday(year: i64, month: usize, day: i64) -> usize {
    let leap = year % 4 == 0 && (year % 100 != 0 || year % 400 == 0);
    let before = [0, 31, 59, 90, 120, 151, 181, 212, 243, 273, 304, 334][month - 1];
    let y = year - 1;
    let n = 365 * y + y.div_euclid(4) - y.div_euclid(100) + y.div_euclid(400)
        + before
        + i64::from(month > 2 && leap)
        + day;
    n.rem_euclid(7) as usize
}

#[test]
fn days_of_the_week_follow_the_count_of_days() {
    let names = ["Sun", "Mon", "Tue", "Wed", "Thu", "Fri", "Sat"];
    for year in (-2000i64..4000).step_by(37) {
        for month in 1..=12usize {
            for day in [1i64, 28] {
                let sign = if year < 0 { "-" } else { "+" };
                let raw = format!("{sign}{}/{month}/{day}", year.abs());
                let shown = pretty(parse_date(&raw).unwrap());
                assert_eq!(&shown[..3], names[weekday(year, month, day)], "{raw}");
            }
        }
    }
}

#[test]
fn kept_dates_sort_chronologically() {
    let dates = ["0000/01/01", "0999/12/31", "1999/12/31", "2026/08/22", "2026/10/01", "9999/12/31"];
    for pair in dates.windows(2) {
        assert!(precedes(pair[0], pair[1]));
        assert!(!precedes(pair[1], pair[0]));
    }
    // Beyond four digits a year carries a sign, and the order breaks.
    assert!(precedes(&kept("+10000/01/01").unwrap(), "2026/08/22"));
}

#[test]
fn today_is_a_date() {
    let day = iso(today());
    assert_eq!(kept(&day), Some(day));
}

#[test]
fn text_is_ordered_as_strings_are() {
    let texts = ["", "a", "ab", "b", "é", "\u{ffff}", "\u{10000}", "2026/08/22", "2026/8/22"];
    for a in texts {
        for b in texts {
            assert_eq!(precedes(a, b), a < b);
            assert_eq!(same(a, b), a == b);
        }
    }
}

#[test]
fn white_space_is_that_of_unicode() {
    for u in 0..=0x10ffffu32 {
        if let Some(c) = char::from_u32(u) {
            assert_eq!(white(c), c.is_whitespace(), "{u:x}");
        }
    }
}

#[test]
fn trimming_takes_white_space_off_both_ends() {
    for s in ["", " ", "a", " a ", "\u{2003}a b\u{85}", "\u{200b}x", "\n\t x y \r\n"] {
        assert_eq!(trim(s), s.trim());
    }
}

#[test]
fn numbers_are_written_and_read() {
    for n in [0u64, 9, 10, 99, 100, 1234567890, u64::MAX] {
        assert_eq!(to_decimal(n), n.to_string());
        assert_eq!(parse_u64(&to_decimal(n)), Some(n));
    }
    for s in ["", "+", "-1", "+7", "007", " 7", "7 ", "1_0", "18446744073709551616", "٣"] {
        assert_eq!(parse_u64(s), s.parse::<u64>().ok(), "{s}");
    }
}
