use mimick_library::decimals::Real;
use mimick_library::details::{
    build_details, description_text, exif_from_local, fill_details, format_camera, format_exposure,
    format_location, probe_details, visible_people, ExifInfo, LocalProbe, NumberTexts, Person,
};
use mimick_library::local_exif::{
    cache_entry, cache_key, cache_path, cached_exif, datetime_rfc3339, exif_from_tags,
    exposure_time, integer_u32, parse_offset, rational_f64, CacheAnswer, CacheKey, ExifTags,
    IntegerTag, LocalExif, NaiveTime, NumberTag, TimeTag,
};

#[test]
fn is_empty_detects_no_fields() {
    assert!(LocalExif::default().is_empty());
}

#[test]
fn is_empty_false_when_any_field_set() {
    let e = LocalExif { iso: Some(400), ..Default::default() };
    assert!(!e.is_empty());

    let e = LocalExif { description: Some("hi".into()), ..Default::default() };
    assert!(!e.is_empty());
}

#[test]
fn parse_offset_accepts_typical_form() {
    assert_eq!(parse_offset("+05:30").as_deref(), Some("+05:30"));
    assert_eq!(parse_offset("-08:00").as_deref(), Some("-08:00"));
}

#[test]
fn parse_offset_rejects_bad_strings() {
    assert!(parse_offset("0530").is_none());
    assert!(parse_offset("+5:30").is_none());
    assert!(parse_offset("+15:00").is_none());
    assert!(parse_offset("+05:60").is_none());
    assert!(parse_offset("").is_none());
}

#[test]
fn parse_offset_edges() {
    assert_eq!(parse_offset("  +14:59 ").as_deref(), Some("+14:59"));
    assert!(parse_offset("++5:30").is_none());
    assert!(parse_offset("-05:+3").is_none());
    assert!(parse_offset("+-5:30").is_none());
    assert!(parse_offset("+05-30").is_none());
    assert!(parse_offset("é5:30x").is_none());
}

fn no_tags() -> ExifTags {
    ExifTags {
        make: None,
        model: None,
        lens_model: None,
        lens_make: None,
        f_number: NumberTag::Absent,
        focal_length: NumberTag::Absent,
        iso: IntegerTag::Absent,
        exposure_time: NumberTag::Absent,
        date_time_original: TimeTag::Absent,
        offset_time_original: None,
        latitude: None,
        longitude: None,
        image_width: IntegerTag::Absent,
        exif_image_width: IntegerTag::Absent,
        image_height: IntegerTag::Absent,
        exif_image_height: IntegerTag::Absent,
        image_description: None,
    }
}

#[test]
fn exposure_times_are_readable() {
    let f = |num, den| exposure_time(NumberTag::Fraction { num, den });
    assert_eq!(f(1, 250).as_deref(), Some("1/250"));
    assert_eq!(f(2, 1).as_deref(), Some("2.0 s"));
    assert_eq!(f(27, 20).as_deref(), Some("1.4 s"));
    assert_eq!(f(29, 20).as_deref(), Some("1.4 s"));
    assert_eq!(f(5, 4).as_deref(), Some("1.2 s"));
    assert_eq!(f(5, 100).as_deref(), Some("5/100"));
    assert_eq!(f(0, 5), None);
    assert_eq!(f(5, 0), None);
    assert_eq!(exposure_time(NumberTag::Absent), None);
}

#[test]
fn long_exposures_are_written_like_doubles() {
    for num in 2u32..400 {
        for den in 1u32..60 {
            if num > den {
                let secs = f64::from(num) / f64::from(den);
                let text = exposure_time(NumberTag::Fraction { num, den });
                assert_eq!(text, Some(format!("{secs:.1} s")));
            }
        }
    }
    let big = NumberTag::Fraction { num: u32::MAX, den: 7 };
    assert_eq!(exposure_time(big), Some(format!("{:.1} s", f64::from(u32::MAX) / 7.0)));
}

#[test]
fn fractions_divide_like_doubles() {
    for num in [1u32, 2, 3, 7, 10, 28, 1000, 65535, 4294967295] {
        for den in [1u32, 2, 3, 7, 10, 999, 4294967291, 4294967295] {
            let real = rational_f64(NumberTag::Fraction { num, den }).unwrap();
            assert_eq!(real.bits, (f64::from(num) / f64::from(den)).to_bits());
        }
    }
    assert!(rational_f64(NumberTag::Fraction { num: 0, den: 3 }).is_none());
    assert!(rational_f64(NumberTag::Fraction { num: 3, den: 0 }).is_none());
    let v = Real { bits: 2.8f64.to_bits() };
    assert_eq!(rational_f64(NumberTag::Real(v)), Some(v));
}

#[test]
fn integers_of_three_widths_are_read() {
    assert_eq!(integer_u32(IntegerTag::U32(70000)), Some(70000));
    assert_eq!(integer_u32(IntegerTag::U16(400)), Some(400));
    assert_eq!(integer_u32(IntegerTag::U8(50)), Some(50));
    assert_eq!(integer_u32(IntegerTag::Other), None);
}

const TIME: NaiveTime =
    NaiveTime { year: 2024, month: 1, day: 15, hour: 19, minute: 55, second: 15, nanos: 0 };

#[test]
fn capture_times_get_an_offset() {
    let naive = TimeTag::Naive(TIME);
    assert_eq!(
        datetime_rfc3339(naive, &Some("+05:30".into())).as_deref(),
        Some("2024-01-15T19:55:15+05:30")
    );
    assert_eq!(
        datetime_rfc3339(naive, &Some("nonsense".into())).as_deref(),
        Some("2024-01-15T19:55:15Z")
    );
    assert_eq!(datetime_rfc3339(naive, &None).as_deref(), Some("2024-01-15T19:55:15Z"));
    let aware = TimeTag::Aware { secs: 1705328715, nanos: 0, offset: 19800 };
    assert_eq!(
        datetime_rfc3339(aware, &Some("-08:00".into())).as_deref(),
        Some("2024-01-15T19:55:15+05:30")
    );
    let never = TimeTag::Naive(NaiveTime { month: 13, ..TIME });
    assert_eq!(datetime_rfc3339(never, &None), None);
}

#[test]
fn tags_become_metadata() {
    assert!(exif_from_tags(&no_tags()).is_none());
    assert!(exif_from_tags(&ExifTags { make: Some("   ".into()), ..no_tags() }).is_none());
    let tags = ExifTags {
        make: Some(" Canon ".into()),
        lens_model: Some(" ".into()),
        lens_make: Some("Sigma".into()),
        image_width: IntegerTag::Other,
        exif_image_width: IntegerTag::U16(6000),
        image_height: IntegerTag::U32(4000),
        exif_image_height: IntegerTag::U16(1),
        iso: IntegerTag::U16(100),
        ..no_tags()
    };
    let exif = exif_from_tags(&tags).unwrap();
    assert_eq!(exif.make.as_deref(), Some("Canon"));
    assert_eq!(exif.lens_model.as_deref(), Some("Sigma"));
    assert_eq!(exif.image_width, Some(6000));
    assert_eq!(exif.image_height, Some(4000));
    assert_eq!(exif.iso, Some(100));
    assert!(exif.date_time_original.is_none());
}

#[test]
fn cache_answers_while_the_file_is_unchanged() {
    let path = b"/photos/a.jpg".to_vec();
    let key = cache_key(&path, 10, Some(5));
    let entry = cache_entry(&key, None);
    assert_eq!(cached_exif(Some(entry), &key), CacheAnswer::Hit(None));
    let newer = cache_key(&path, 10, Some(6));
    assert_eq!(newer.digest, key.digest);
    assert_eq!(cached_exif(Some(cache_entry(&key, None)), &newer), CacheAnswer::Miss);
    let larger = cache_key(&path, 11, Some(5));
    assert_eq!(cached_exif(Some(cache_entry(&key, None)), &larger), CacheAnswer::Miss);
    assert_eq!(cached_exif(None, &key), CacheAnswer::Miss);
    let exif = LocalExif { iso: Some(64), ..Default::default() };
    let hit = cached_exif(Some(cache_entry(&key, Some(exif.clone()))), &key);
    assert_eq!(hit, CacheAnswer::Hit(Some(exif)));
}

#[test]
fn cache_key_of_an_early_time_is_zero() {
    assert_eq!(cache_key(&vec![1], 3, None).mtime_nanos, 0);
}

#[test]
fn digest_is_the_blake3_hash() {
    let key = cache_key(&Vec::new(), 0, None);
    assert_eq!(
        key.digest,
        "af1349b9f5f9a1a6a0404dea36dcc9499bcb25c9adc112b7cc9a93cae41f3262"
    );
    assert_ne!(cache_key(&vec![0], 0, None).digest, key.digest);
}

#[test]
fn cache_files_lie_below_the_root() {
    let key = CacheKey { digest: "abc".into(), mtime_nanos: 1, size: 2 };
    assert_eq!(cache_path("/cache", &key), "/cache/exif/abc.json");
}

fn empty_exif() -> ExifInfo {
    exif_from_local(&LocalExif::default(), None)
}

fn texts() -> NumberTexts {
    NumberTexts {
        f_number: "1.8".into(),
        focal_length: "26".into(),
        latitude: "48.13743".into(),
        longitude: "11.57549".into(),
    }
}

#[test]
fn camera_name_does_not_repeat_the_make() {
    let named = |make: Option<&str>, model: Option<&str>| ExifInfo {
        make: make.map(String::from),
        model: model.map(String::from),
        ..empty_exif()
    };
    assert_eq!(
        format_camera(&named(Some("Canon"), Some(" Canon EOS R5 "))).as_deref(),
        Some("Canon EOS R5")
    );
    assert_eq!(
        format_camera(&named(Some("SONY"), Some("ILCE-7M4"))).as_deref(),
        Some("SONY ILCE-7M4")
    );
    assert_eq!(format_camera(&named(Some(" Leica "), None)).as_deref(), Some("Leica"));
    assert_eq!(format_camera(&named(None, Some("Q3"))).as_deref(), Some("Q3"));
    assert_eq!(format_camera(&named(None, Some("  "))), None);
    assert_eq!(format_camera(&named(None, None)), None);
}

#[test]
fn exposure_line_lists_what_is_known() {
    let one = Real { bits: 1.0f64.to_bits() };
    let exif = ExifInfo {
        f_number: Some(one),
        exposure_time: Some(" 1/250 ".into()),
        iso: Some(100),
        focal_length: Some(one),
        ..empty_exif()
    };
    assert_eq!(
        format_exposure(&exif, &texts()).as_deref(),
        Some("ƒ/1.8 · 1/250 · ISO 100 · 26mm")
    );
    assert_eq!(format_exposure(&empty_exif(), &texts()), None);
}

#[test]
fn location_joins_the_names() {
    let exif = ExifInfo {
        city: Some(" Munich ".into()),
        state: Some("".into()),
        country: Some("Germany".into()),
        ..empty_exif()
    };
    assert_eq!(format_location(&exif).as_deref(), Some("Munich, Germany"));
    assert_eq!(format_location(&empty_exif()), None);
}

#[test]
fn details_skip_empty_groups() {
    assert!(build_details(&empty_exif(), &texts(), "Taken", "").is_empty());
    let exif = ExifInfo {
        exif_image_width: Some(6000),
        exif_image_height: Some(4000),
        file_size_in_byte: Some(5 * 1024 * 1024),
        date_time_original: Some("2024".into()),
        description: Some("At the lake".into()),
        ..empty_exif()
    };
    let groups = build_details(&exif, &texts(), "Taken", "shown");
    let titles: Vec<&str> = groups.iter().map(|g| g.title).collect();
    assert_eq!(titles, vec!["Image", "Description"]);
    let values: Vec<&str> = groups[0].rows.iter().map(|r| r.value.as_str()).collect();
    assert_eq!(values, vec!["6000 × 4000", "5.00 MB", "shown"]);
    assert_eq!(groups[0].rows[2].title, "Taken");
    assert_eq!(groups[1].rows[0].title, "At the lake");
    let shown = fill_details(&exif, &texts(), "Modified");
    assert_eq!(shown[0].rows[2].value, "2024");
    assert_eq!(shown[0].rows[2].title, "Modified");
}

#[test]
fn coordinates_need_both_numbers() {
    let one = Real { bits: 1.0f64.to_bits() };
    let half = ExifInfo { latitude: Some(one), ..empty_exif() };
    assert!(build_details(&half, &texts(), "Taken", "").is_empty());
    let both = ExifInfo { longitude: Some(one), ..half };
    let groups = build_details(&both, &texts(), "Taken", "");
    assert_eq!(groups[0].rows[0].value, "48.13743, 11.57549");
}

#[test]
fn probe_falls_back_to_the_file() {
    let nothing = LocalProbe { exif: None, file_size: None, mtime_iso: None, dims: None };
    assert!(probe_details(&nothing).is_none());
    let probe = LocalProbe {
        exif: Some(LocalExif { image_width: Some(10), ..Default::default() }),
        file_size: Some(99),
        mtime_iso: Some("2024-01-01T00:00:00Z".into()),
        dims: Some((7, 8)),
    };
    let details = probe_details(&probe).unwrap();
    assert_eq!(details.taken_label, "Modified");
    assert_eq!(details.exif.exif_image_width, Some(10));
    assert_eq!(details.exif.exif_image_height, Some(8));
    assert_eq!(details.exif.date_time_original.as_deref(), Some("2024-01-01T00:00:00Z"));
    assert_eq!(details.exif.file_size_in_byte, Some(99));
    let taken = LocalProbe {
        exif: Some(LocalExif { date_time_original: Some("x".into()), ..Default::default() }),
        ..probe
    };
    let details = probe_details(&taken).unwrap();
    assert_eq!(details.taken_label, "Taken");
    assert_eq!(details.exif.date_time_original.as_deref(), Some("x"));
}

#[test]
fn hidden_people_are_left_out() {
    let person = |id: &str, hidden| Person { id: id.into(), name: "".into(), is_hidden: hidden };
    let people = vec![person("a", false), person("b", true), person("c", false)];
    let ids: Vec<String> = visible_people(&people).into_iter().map(|p| p.id).collect();
    assert_eq!(ids, vec!["a", "c"]);
}

#[test]
fn description_prefers_the_asset() {
    let exif = Some(ExifInfo { description: Some("exif".into()), ..empty_exif() });
    assert_eq!(description_text(&Some("own".into()), &exif), "own");
    assert_eq!(description_text(&None, &exif), "exif");
    assert_eq!(description_text(&None, &None), "");
}
