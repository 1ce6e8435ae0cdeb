use mimick_library::checksum::{hex_text, immich_checksum_to_hex};
use mimick_library::clock::{
    compact_time, filter_date_for, format_datetime_display, format_full_timestamp, format_modified,
    format_topbar_datetime, full_time, local_time_text, month_label_for, month_year_label,
    normalise_iso_date, ordinal_suffix, time_at_offset, topbar_time, TimeStyle,
};
use mimick_library::decimals::{format_bytes, human_bytes, percent, quotient, quotient_text};
use mimick_library::path::{extension, file_name, file_stem, join_path, path_starts_with};
use mimick_library::text::{
    at_or_before, begins_with, byte_size, contains_text, first_chars, front_bytes, is_blank, join,
    lower, number, number2, replace_char, same_text, signed_number, trim, white_space,
};
use std::path::Path;

#[test]
fn white_space_is_that_of_unicode() {
    for n in 0..0x11_0000u32 {
        if let Some(c) = char::from_u32(n) {
            assert_eq!(white_space(c), c.is_whitespace(), "U+{:04X}", n);
        }
    }
}

#[test]
fn trimming_agrees_with_the_standard_library() {
    for s in ["", " ", "a", "  a b \t", "\u{3000}x\u{a0}", "\n\r", "é "] {
        assert_eq!(trim(s), s.trim());
        assert_eq!(is_blank(s), s.trim().is_empty());
    }
}

#[test]
fn comparisons_agree_with_the_standard_library() {
    let texts = ["", "a", "A", "ab", "b", "é", "z", "\u{10000}", "\u{ffff}"];
    for a in texts {
        for b in texts {
            assert_eq!(at_or_before(a, b), a <= b);
            assert_eq!(same_text(a, b), a == b);
            assert_eq!(begins_with(a, b), a.starts_with(b));
            assert_eq!(contains_text(a, b), a.contains(b));
        }
        assert_eq!(lower(a), a.to_ascii_lowercase());
        assert_eq!(byte_size(a), a.len());
    }
}

#[test]
fn pieces_of_texts() {
    assert_eq!(front_bytes("häuser", 3).as_deref(), Some("hä"));
    assert_eq!(front_bytes("häuser", 2), None);
    assert_eq!(front_bytes("ab", 3), None);
    assert_eq!(first_chars("häuser", 2), "hä");
    assert_eq!(first_chars("ab", 5), "ab");
    assert_eq!(replace_char("aTbT", 'T', ' '), "a b ");
    assert_eq!(join(&vec!["a".into(), "b".into()], ", "), "a, b");
    assert_eq!(join(&vec![], ", "), "");
}

#[test]
fn numerals() {
    assert_eq!(number(0), "0");
    assert_eq!(number(u64::MAX), u64::MAX.to_string());
    assert_eq!(number2(7), "07");
    assert_eq!(number2(123), "123");
    assert_eq!(signed_number(i32::MIN), i32::MIN.to_string());
    assert_eq!(signed_number(-5), "-5");
}

#[test]
fn paths_agree_with_the_standard_library() {
    let paths = [
        "", "/", ".", "..", "a", "a/", "/a/b.c", "a//b", "./a", "a/..", ".hidden", "a.b.c", "a.",
        "/a/./b", "..a", "x/.y.z",
    ];
    for p in paths {
        let std = Path::new(p);
        assert_eq!(file_name(p).as_deref(), std.file_name().and_then(|s| s.to_str()), "{}", p);
        assert_eq!(file_stem(p).as_deref(), std.file_stem().and_then(|s| s.to_str()), "{}", p);
        assert_eq!(extension(p).as_deref(), std.extension().and_then(|s| s.to_str()), "{}", p);
        for q in paths {
            assert_eq!(path_starts_with(p, q), std.starts_with(q), "{} under {}", p, q);
            assert_eq!(join_path(p, q), std.join(q).to_str().unwrap(), "{} join {}", p, q);
        }
    }
}

#[test]
fn checksums_are_written_in_hexadecimal() {
    assert_eq!(immich_checksum_to_hex("AAECAw==").as_deref(), Some("00010203"));
    assert_eq!(immich_checksum_to_hex("/+8=").as_deref(), Some("ffef"));
    assert_eq!(immich_checksum_to_hex("").as_deref(), Some(""));
    assert_eq!(immich_checksum_to_hex("not base64!"), None);
    assert_eq!(immich_checksum_to_hex("AAECAw"), None);
    assert_eq!(hex_text(&vec![0, 15, 16, 255]), "000f10ff");
}

#[test]
fn byte_counts_are_written_like_doubles() {
    assert_eq!(format_bytes(0), "0 B");
    assert_eq!(format_bytes(1023), "1023 B");
    assert_eq!(format_bytes(1024), "1.0 KB");
    assert_eq!(format_bytes(1536), "1.5 KB");
    assert_eq!(format_bytes(5 * 1024 * 1024), "5.00 MB");
    assert_eq!(format_bytes(3 * 1024 * 1024 * 1024 / 2), "1.50 GB");
    let mut n: u64 = 1;
    for step in 0..4000u64 {
        let f = n as f64;
        let kib = 1024.0;
        let wanted = if f >= kib * kib * kib {
            format!("{:.2} GB", f / (kib * kib * kib))
        } else if f >= kib * kib {
            format!("{:.2} MB", f / (kib * kib))
        } else if f >= kib {
            format!("{:.1} KB", f / kib)
        } else {
            format!("{} B", n)
        };
        assert_eq!(format_bytes(n), wanted, "{}", n);
        n = n.wrapping_mul(6364136223846793005).wrapping_add(1442695040888963407) >> (step % 60);
    }
    for k in 0..64u32 {
        for n in [1u64 << k, (1u64 << k) - 1, (1u64 << k) | 0x2_0000] {
            let f = n as f64;
            if f >= 1048576.0 && f < 1073741824.0 {
                assert_eq!(format_bytes(n), format!("{:.2} MB", f / 1048576.0), "{}", n);
            }
        }
    }
}

fn human(bytes: u64) -> String {
    let units = ["B", "KB", "MB", "GB", "TB"];
    let mut value = bytes as f64;
    let mut unit = 0;
    while value >= 1024.0 && unit < units.len() - 1 {
        value /= 1024.0;
        unit += 1;
    }
    if unit == 0 {
        format!("{bytes} {}", units[unit])
    } else {
        format!("{value:.1} {}", units[unit])
    }
}

#[test]
fn compact_sizes_are_written_like_doubles() {
    assert_eq!(human_bytes(1_258_291), "1.2 MB");
    for k in 0..64u32 {
        let p = 1u64 << k;
        for n in [p, p - 1, p + p / 3, p + p / 20, p + p / 4, p / 5 * 3] {
            assert_eq!(human_bytes(n), human(n), "{}", n);
        }
    }
    assert_eq!(human_bytes(u64::MAX), human(u64::MAX));
}

#[test]
fn per_cents_are_rounded_like_doubles() {
    assert_eq!(percent(1, 3), 33);
    assert_eq!(percent(1, 200), 1);
    assert_eq!(percent(5, 4), 100);
    let mut a: u64 = 12345;
    for step in 0..20000u64 {
        a = a.wrapping_mul(6364136223846793005).wrapping_add(1442695040888963407);
        let total = (a >> (step % 63)).max(1);
        let done = a.rotate_left(17) % total.saturating_add(total / 8).max(1);
        let f = (done as f64 / total as f64).clamp(0.0, 1.0);
        assert_eq!(percent(done, total), (f * 100.0).round() as u32, "{}/{}", done, total);
    }
    for total in 1..400u64 {
        for done in 0..=total {
            let f = (done as f64 / total as f64).clamp(0.0, 1.0);
            assert_eq!(percent(done, total), (f * 100.0).round() as u32, "{}/{}", done, total);
        }
    }
}

#[test]
fn quotients_are_those_of_doubles() {
    assert_eq!(quotient(1, 3).bits, (1.0f64 / 3.0).to_bits());
    assert_eq!(quotient_text(7, 2), "3.5");
}

#[test]
fn times_that_cannot_be_read_are_shown_as_they_are() {
    assert_eq!(format_datetime_display("2024-01-15Tnonsense-and-more"), "2024-01-15Tnonsense-and-more");
    assert_eq!(format_full_timestamp("2024-01-15Tnonsense-and-more"), "2024-01-15Tnonsense-and-more");
    assert_eq!(compact_time("2024-01-15Tx", None), "2024-01-15Tx");
    assert_eq!(format_datetime_display("soon"), "soon");
    assert_eq!(format_full_timestamp("  "), "  ");
    assert_eq!(format_full_timestamp("soon"), "soon");
    assert_eq!(format_topbar_datetime("soon"), "");
    assert_eq!(local_time_text("soon", TimeStyle::Full), None);
}

#[test]
fn times_are_shown_in_the_local_zone() {
    let iso = "2024-01-15T14:25:15.000Z";
    let shown = format_datetime_display(iso);
    assert_eq!(shown.len(), "2024-01-15 14:25:15 UTC+00:00".len());
    assert!(shown.contains(" UTC"));
    assert!(format_full_timestamp(iso).contains(" · "));
    assert!(format_topbar_datetime(iso).contains("2024, "));
    let local = Some("local".to_string());
    assert_eq!(compact_time(iso, local.clone()), "local");
    assert_eq!(full_time(iso, local.clone(), String::new()), "local");
    assert_eq!(topbar_time(local), "local");
    assert!(local_time_text("2024-01-15 14:25:15 UTC", TimeStyle::Short).is_some());
}

#[test]
fn times_are_shown_at_an_offset() {
    let iso = "2024-01-15T14:25:15.000Z";
    let shown = |offset: i32, style: TimeStyle| time_at_offset(iso, offset, style);
    assert_eq!(
        shown(3600, TimeStyle::Compact).as_deref(),
        Some("2024-01-15 15:25:15 UTC+01:00")
    );
    assert_eq!(
        shown(-5 * 3600, TimeStyle::Full).as_deref(),
        Some("Monday, January 15, 2024 · 9:25 AM")
    );
    assert_eq!(shown(36_000, TimeStyle::Short).as_deref(), Some("Jan 16, 2024, 12:25 AM"));
    assert_eq!(
        time_at_offset("2024-01-15 14:25:15 UTC", 0, TimeStyle::Short).as_deref(),
        Some("Jan 15, 2024, 2:25 PM")
    );
    assert_eq!(
        time_at_offset("2026-07-19T15:42:00Z", 0, TimeStyle::Short).as_deref(),
        Some("Jul 19, 2026, 3:42 PM")
    );
    assert_eq!(shown(86_400, TimeStyle::Short), None);
    assert_eq!(time_at_offset("soon", 0, TimeStyle::Short), None);
}

#[test]
fn modification_times_are_written_in_utc() {
    assert_eq!(format_modified(0, 0).as_deref(), Some("1970-01-01T00:00:00.000Z"));
    assert_eq!(
        format_modified(1705328715, 250_000_000).as_deref(),
        Some("2024-01-15T14:25:15.250Z")
    );
    assert_eq!(format_modified(i64::MAX, 0), None);
}

#[test]
fn ordinals() {
    let suffixes: Vec<&str> = [1, 2, 3, 4, 11, 12, 13, 21, 22, 23, 30]
        .iter()
        .map(|d| ordinal_suffix(*d))
        .collect();
    assert_eq!(
        suffixes,
        vec!["st", "nd", "rd", "th", "th", "th", "th", "st", "nd", "rd", "th"]
    );
}

#[test]
fn month_labels() {
    assert_eq!(month_year_label("2026-07-19T15:42:00.000Z"), "July 2026");
    assert_eq!(month_label_for("x", Some((2024, 0))), "January 2024");
    assert_eq!(month_year_label("2026-07-nonsense"), month_label_for("2026-07-nonsense", None));
}

#[test]
fn filter_dates_are_completed() {
    assert_eq!(
        normalise_iso_date(" 2024-01-15 ").as_deref(),
        Some("2024-01-15T00:00:00.000Z")
    );
    assert_eq!(
        normalise_iso_date("2024-01-15T00:00:00Z").as_deref(),
        Some("2024-01-15T00:00:00Z")
    );
    assert_eq!(normalise_iso_date("yesterday"), None);
    assert_eq!(normalise_iso_date("  "), None);
    assert_eq!(filter_date_for("2024".into(), false, false), None);
}
