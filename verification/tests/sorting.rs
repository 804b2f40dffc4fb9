use holochain_core_types::datetime::DateTime;
use holochain_core_types::time::Iso8601;
use std::cmp::Ordering;

fn shown(v: &Vec<Iso8601>) -> String {
    v.iter()
        .map(|ts| ts.to_debug_string())
        .collect::<Vec<String>>()
        .join(", ")
}

#[test]
fn test_iso_8601_sorting() {
    // Different ways of specifying UTC "Zulu".  A bare timestamp will be defaulted to "Zulu".
    let mut v: Vec<Iso8601> = vec![
        "2018-10-11T03:23:39-08:00".into(),
        "2018-10-11T03:23:39-07:00".into(),
        "2018-10-11 03:23:39+03:00".into(),
        "baz".into(),
        "2018-10-11T03:23:39-06:00".into(),
        "20181011 032339 +04:00".into(),
        "2018-10-11T03:23:39−09:00".into(), // note the UTF8 minus instead of ASCII hyphen
        "2018-10-11T03:23:39+11:00".into(),
        "2018-10-11 03:23:39Z".into(),
        "2018-10-11 03:23:40".into(),
        "boo".into(),
        "bar".into(),
    ];
    v.sort_by(|a, b| {
        let cmp = a.cmp(b);
        cmp
    });
    assert_eq!(
        shown(&v),
        [
            "Iso8601 { \"baz\" -> Failed to find ISO 3339 or RFC 8601 timestamp in \"baz\" }, ",
            "Iso8601 { \"boo\" -> Failed to find ISO 3339 or RFC 8601 timestamp in \"boo\" }, ",
            "Iso8601 { \"bar\" -> Failed to find ISO 3339 or RFC 8601 timestamp in \"bar\" }, ",
            "Iso8601 { \"2018-10-11T03:23:39+11:00\" }, ",
            "Iso8601 { \"2018-10-11T03:23:39+04:00\" <- \"20181011 032339 +04:00\" }, ",
            "Iso8601 { \"2018-10-11T03:23:39+03:00\" <- \"2018-10-11 03:23:39+03:00\" }, ",
            "Iso8601 { \"2018-10-11T03:23:39+00:00\" <- \"2018-10-11 03:23:39Z\" }, ",
            "Iso8601 { \"2018-10-11T03:23:40+00:00\" <- \"2018-10-11 03:23:40\" }, ",
            "Iso8601 { \"2018-10-11T03:23:39-06:00\" }, ",
            "Iso8601 { \"2018-10-11T03:23:39-07:00\" }, ",
            "Iso8601 { \"2018-10-11T03:23:39-08:00\" }, ",
            "Iso8601 { \"2018-10-11T03:23:39-09:00\" <- \"2018-10-11T03:23:39−09:00\" }"
        ]
        .concat()
    );

    v.sort_by(|a, b| b.cmp(a)); // reverse
    assert_eq!(
        shown(&v),
        [
            "Iso8601 { \"2018-10-11T03:23:39-09:00\" <- \"2018-10-11T03:23:39−09:00\" }, ",
            "Iso8601 { \"2018-10-11T03:23:39-08:00\" }, ",
            "Iso8601 { \"2018-10-11T03:23:39-07:00\" }, ",
            "Iso8601 { \"2018-10-11T03:23:39-06:00\" }, ",
            "Iso8601 { \"2018-10-11T03:23:40+00:00\" <- \"2018-10-11 03:23:40\" }, ",
            "Iso8601 { \"2018-10-11T03:23:39+00:00\" <- \"2018-10-11 03:23:39Z\" }, ",
            "Iso8601 { \"2018-10-11T03:23:39+03:00\" <- \"2018-10-11 03:23:39+03:00\" }, ",
            "Iso8601 { \"2018-10-11T03:23:39+04:00\" <- \"20181011 032339 +04:00\" }, ",
            "Iso8601 { \"2018-10-11T03:23:39+11:00\" }, ",
            "Iso8601 { \"baz\" -> Failed to find ISO 3339 or RFC 8601 timestamp in \"baz\" }, ",
            "Iso8601 { \"boo\" -> Failed to find ISO 3339 or RFC 8601 timestamp in \"boo\" }, ",
            "Iso8601 { \"bar\" -> Failed to find ISO 3339 or RFC 8601 timestamp in \"bar\" }"
        ]
        .concat()
    );
}

#[test]
fn unparsable_sorts_first() {
    let mut v: Vec<Iso8601> = vec![
        "2018-10-11T03:23:39-08:00".into(),
        "boo".into(),
        "2018-10-11T03:23:39+11:00".into(),
    ];
    v.sort_by(|a, b| a.cmp(b));
    let texts: Vec<&str> = v.iter().map(|ts| ts.as_str()).collect();
    assert_eq!(
        texts,
        vec!["boo", "2018-10-11T03:23:39+11:00", "2018-10-11T03:23:39-08:00"]
    );
}

#[test]
fn sort_order_compares_every_pair() {
    let good = Iso8601::from("2018-10-11T03:23:38Z");
    let same = Iso8601::from("2018-10-11T03:23:38-08:00");
    let later = Iso8601::from("2018-10-11 11:23:38.000000001");
    let bad = Iso8601::from("boo");
    let worse = Iso8601::from("2018-02-30");
    assert_eq!(bad.cmp(&good), Ordering::Less);
    assert_eq!(good.cmp(&bad), Ordering::Greater);
    assert_eq!(bad.cmp(&worse), Ordering::Equal);
    assert_eq!(bad.cmp(&bad), Ordering::Equal);
    assert_eq!(good.cmp(&good), Ordering::Equal);
    assert_eq!(good.cmp(&same), Ordering::Less);
    assert_eq!(same.cmp(&good), Ordering::Greater);
    assert_eq!(same.cmp(&later), Ordering::Less);
    assert_eq!(later.cmp(&same), Ordering::Greater);
    assert_eq!(good.cmp(&later), Ordering::Less);
}

#[test]
fn meaning_order_is_undefined_for_unparsable_values() {
    let good = Iso8601::from("2018-10-11T03:23:38Z");
    let bad = Iso8601::from("boo");
    assert_eq!(bad.partial_cmp(&bad), None);
    assert_eq!(bad.partial_cmp(&good), None);
    assert_eq!(good.partial_cmp(&bad), None);
    assert_eq!(good.partial_cmp(&good), Some(Ordering::Equal));
    assert!(!(bad == bad));
    assert!(!(bad <= bad));
    assert!(!(bad >= bad));
    assert!(good == good);
    assert!(good <= good);
}

#[test]
fn equal_instants_at_different_offsets_are_equal() {
    let west = Iso8601::from("2018-10-11T03:23:38-08:00");
    let utc = Iso8601::from("2018-10-11T11:23:38Z");
    let east = Iso8601::from("20181011 165338 +0530");
    assert!(west == utc);
    assert!(utc == east);
    assert!(west == east);
    assert_eq!(west.partial_cmp(&east), Some(Ordering::Equal));
    assert_eq!(west.cmp(&east), Ordering::Equal);
    let a = DateTime::try_from(&west).unwrap();
    let b = DateTime::try_from(&east).unwrap();
    assert_eq!(a.timestamp(), b.timestamp());
    assert_eq!(a.local_minus_utc(), -28800);
    assert_eq!(b.local_minus_utc(), 19800);
    assert!(a == b);
    assert_eq!(a.partial_cmp(&b), Some(Ordering::Equal));
    assert_eq!(a.cmp(&b), Ordering::Equal);
}

#[test]
fn date_times_order_by_seconds_then_nanoseconds() {
    let dt = |ts: &'static str| DateTime::try_from(&Iso8601::from(ts)).unwrap();
    let a = dt("2018-10-11T03:23:38.5Z");
    let b = dt("2018-10-11T03:23:38.6Z");
    let c = dt("2018-10-11T03:23:39Z");
    let leap = dt("2018-10-11T03:23:59Z");
    let leap60 = dt("2018-10-11T03:23:60Z");
    let next = dt("2018-10-11T03:24:00Z");
    assert_eq!(a.cmp(&b), Ordering::Less);
    assert_eq!(b.cmp(&a), Ordering::Greater);
    assert_eq!(b.cmp(&c), Ordering::Less);
    assert_eq!(leap.cmp(&leap60), Ordering::Less);
    assert_eq!(leap60.cmp(&next), Ordering::Less);
    assert!(a < b && b < c && a != b);
    assert!(leap < leap60 && leap60 < next);
}

#[test]
fn date_times_compare_as_their_instants_do() {
    let texts = vec![
        "2018-10-11T03:23:38Z",
        "2018-10-11T03:23:38-08:00",
        "2018-10-11T11:23:38+08:00",
        "2018-10-11T03:23:38.000000001Z",
        "2018-10-11T03:23:59.999999999Z",
        "2018-10-11T03:23:60Z",
        "2018-10-11T03:23:60.5Z",
        "2018-10-11T03:24:00Z",
        "2018-10-11T04:53:60+01:30",
        "1969-12-31T23:59:59.5Z",
        "1970-01-01T00:00:00Z",
        "0000-01-01T00:00:00+23:59",
        "9999-12-31T23:59:60.999999999-23:59",
    ];
    for a in texts.iter() {
        for b in texts.iter() {
            let x = chrono::DateTime::parse_from_rfc3339(a).unwrap();
            let y = chrono::DateTime::parse_from_rfc3339(b).unwrap();
            let p = DateTime::try_from(&Iso8601::from(*a)).unwrap();
            let q = DateTime::try_from(&Iso8601::from(*b)).unwrap();
            assert_eq!(p.timestamp(), x.timestamp());
            assert_eq!(p.timestamp_subsec_nanos(), x.timestamp_subsec_nanos());
            assert_eq!(p.local_minus_utc(), x.offset().local_minus_utc());
            assert_eq!(p.to_rfc3339(), x.to_rfc3339());
            assert_eq!(p.cmp(&q), x.cmp(&y), "{:?} {:?}", a, b);
            assert_eq!(p == q, x == y, "{:?} {:?}", a, b);
            assert_eq!(p.partial_cmp(&q), x.partial_cmp(&y), "{:?} {:?}", a, b);
            assert_eq!(Iso8601::from(*a).cmp(&Iso8601::from(*b)), x.cmp(&y));
            assert_eq!(Iso8601::from(*a) == Iso8601::from(*b), x == y);
            assert_eq!(Iso8601::from(*a) < Iso8601::from(*b), x < y);
        }
    }
}
