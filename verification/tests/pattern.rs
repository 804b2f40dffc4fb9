use holochain_core_types::canonical::canonicalize;
use holochain_core_types::chars::{characters, digit, space};
use holochain_core_types::extract::extract;
use holochain_core_types::fields::{ExtractedFields, TimeOfDay, Zone};
use regex::Regex;

/// The permissive pattern as a regular expression.
fn pattern() -> Regex {
    Regex::new(
        r"(?x)
        ^
        \s*
        (?P<Y>[0-9]{4})
        (?:
          -?
          (?P<M> 0[1-9] | 1[012] )?
          (?:
            -?
            (?P<D> 0[1-9] | [12][0-9] | 3[01] )?
          )?
        )?
        (?:
          (?: [Tt] | \s+ )
          (?P<h> [01][0-9] | 2[0-3] )
          (?:
            :?
            (?P<m> [0-5][0-9] )
            (?:
              :?
              (?P<s> (?: [0-5][0-9] | 60 ) )
              (?:
                [.,]
                (?P<ss> [0-9]+ )
              )?
            )?
          )?
        )?
        \s*
        (?P<Z>
           [Zz]
         | (?P<Zsgn>[+\-\x{2212}])
           (?P<Zhrs>[0-9]{2})
           (?:
             :?
             (?P<Zmin>[0-9]{2})
           )?
        )?
        \s*
        $",
    )
    .unwrap()
}

/// The groups that the regular expression captures, written as the fields are shown.
fn captured(re: &Regex, text: &str) -> Option<String> {
    let cap = re.captures(text)?;
    let group = |name: &str| cap.name(name).map(|m| m.as_str().to_string());
    let time = group("h").map(|hour| TimeOfDay {
        hour,
        minute: group("m"),
        second: group("s"),
        fraction: group("ss"),
    });
    let zone = match group("Z").as_deref() {
        None | Some("Z") | Some("z") => Zone::Zulu,
        Some(_) => Zone::Offset {
            negative: &cap["Zsgn"] != "+",
            hours: cap["Zhrs"].to_string(),
            minutes: group("Zmin"),
        },
    };
    let fields = ExtractedFields {
        year: cap["Y"].to_string(),
        month: group("M"),
        day: group("D"),
        time,
        zone,
    };
    Some(format!("{:?}", fields))
}

fn extracted(text: &str) -> Option<String> {
    extract(text).map(|fields| format!("{:?}", fields))
}

fn fields_of(text: &str) -> ExtractedFields {
    extract(text).unwrap()
}

#[test]
fn white_space_is_what_unicode_says() {
    let mut n = 0u32;
    while n <= 0x10ffff {
        if let Some(c) = char::from_u32(n) {
            assert_eq!(space(c), c.is_whitespace(), "{:?}", c);
            assert_eq!(digit(c), c.is_ascii_digit(), "{:?}", c);
        }
        n += 1;
    }
}

#[test]
fn characters_are_those_of_the_text() {
    assert_eq!(characters(""), Vec::<char>::new());
    assert_eq!(characters("a\u{2212}b"), vec!['a', '\u{2212}', 'b']);
    assert_eq!(characters(" 2018 "), vec![' ', '2', '0', '1', '8', ' ']);
}

#[test]
fn extract_takes_each_field_as_written() {
    let f = fields_of("  2015-02-18 235960,234567 \u{2212}0530 ");
    assert_eq!(f.year, "2015");
    assert_eq!(f.month.as_deref(), Some("02"));
    assert_eq!(f.day.as_deref(), Some("18"));
    let time = f.time.clone().unwrap();
    assert_eq!(time.hour, "23");
    assert_eq!(time.minute.as_deref(), Some("59"));
    assert_eq!(time.second.as_deref(), Some("60"));
    assert_eq!(time.fraction.as_deref(), Some("234567"));
    match &f.zone {
        Zone::Offset { negative, hours, minutes } => {
            assert!(*negative);
            assert_eq!(hours, "05");
            assert_eq!(minutes.as_deref(), Some("30"));
        }
        Zone::Zulu => panic!("an offset was written"),
    }
    assert_eq!(canonicalize(&f), "2015-02-18T23:59:60.234567-05:30");
}

#[test]
fn extract_leaves_out_what_is_not_written() {
    let f = fields_of("2018");
    assert_eq!(f.year, "2018");
    assert!(f.month.is_none() && f.day.is_none() && f.time.is_none());
    assert!(matches!(f.zone, Zone::Zulu));
    assert_eq!(canonicalize(&f), "2018-01-01T00:00:00Z");

    let f = fields_of("2018 07+01");
    assert!(f.month.is_none() && f.day.is_none());
    let time = f.time.clone().unwrap();
    assert_eq!(time.hour, "07");
    assert!(time.minute.is_none() && time.second.is_none() && time.fraction.is_none());
    assert_eq!(canonicalize(&f), "2018-01-01T07:00:00+01:00");

    let f = fields_of("2018-11T0709z");
    assert_eq!(f.month.as_deref(), Some("11"));
    assert!(f.day.is_none());
    assert_eq!(canonicalize(&f), "2018-11-01T07:09:00Z");
}

#[test]
fn extract_refuses_what_the_pattern_does_not_match() {
    for text in vec![
        "",
        "boo",
        "201",
        "18-10-11",
        "2018-10-11T",
        "2018-10-11T3",
        "2018-10-11T24",
        "2018-10-11T23:",
        "2018-10-11T23:6",
        "2018-10-11T23:60",
        "2018-10-11T23:59:61",
        "2018-10-11T23:59:59.",
        "2018-10-11T23:59:59.Z",
        "2018-10-11T23.5",
        "2018-10-11T23:59.5",
        "2018-10-11 +5",
        "2018-10-11 +05:3",
        "2018-10-11 +05:",
        "2018-10-11 +05:300",
        "2018-10-11 Z Z",
        "2018-10-11 ZZ",
        "2018-10-11 x",
        "x 2018-10-11",
        "2018-1-01",
        "2018-10-1",
        "2018-10-11-",
        "2018T",
        "\u{ff12}018",
        "2018-10-11 03:23:3\u{0663}",
    ] {
        assert!(extract(text).is_none(), "{:?}", text);
    }
}

#[test]
fn canonical_form_fills_sign_and_minutes_of_the_zone() {
    assert_eq!(canonicalize(&fields_of("2018+05")), "2018-01-01T00:00:00+05:00");
    assert_eq!(canonicalize(&fields_of("2018-05+05")), "2018-05-01T00:00:00+05:00");
    assert_eq!(canonicalize(&fields_of("2018 -0545")), "2018-01-01T00:00:00-05:45");
    assert_eq!(canonicalize(&fields_of("2018\u{2212}05:45")), "2018-01-01T00:00:00-05:45");
    assert_eq!(canonicalize(&fields_of("2018+99:99")), "2018-01-01T00:00:00+99:99");
    assert_eq!(canonicalize(&fields_of("9999-12-31t23:59:60,0z")), "9999-12-31T23:59:60.0Z");
    assert_eq!(
        canonicalize(&fields_of("0000\t00:00\u{a0}Z\u{3000}")),
        "0000-01-01T00:00:00Z"
    );
}

#[test]
fn extract_agrees_with_the_regular_expression_on_assembled_texts() {
    let re = pattern();
    let leads = ["", " "];
    let dates = [
        "", "-", "--", "---", "05", "-05", "05-", "-05-", "13", "-13", "0530", "-0530", "05-30",
        "-05-30", "-05-3", "1231", "1232", "-31", "--31", "31", "3112", "00", "-00", "-1300",
        "-13-01", "0000", "-12-", "1-01",
    ];
    let times = [
        "", "T", "t03", "T03", " 03", "  03", "03", "T24", " 24", "T23", "T0323", " 03:23",
        "T03:60", "T03:2", "T03:", "T032359", "T03:23:59", "T03:2359", "T0323:59", "T03:23:60",
        "T03:23:61", "T03:23:59.", "T03:23:59.1", "T03:23:59,123456789012", "T03:23.5",
        " 03:23:59.5:",
    ];
    let gaps = ["", " "];
    let zones = [
        "", "Z", "z", "+05", "-05", "\u{2212}05", "+0530", "-05:30", "\u{2212}0530", "+25",
        "-5", "+05:", "+05:3", "+053", "+05300", "ZZ", "-", "+", "/05", "05",
    ];
    let trails = ["", " ", "x"];
    let mut matched = 0;
    let mut total = 0;
    for lead in leads.iter() {
        for date in dates.iter() {
            for time in times.iter() {
                for gap in gaps.iter() {
                    for zone in zones.iter() {
                        for trail in trails.iter() {
                            let text = format!("{}2018{}{}{}{}{}", lead, date, time, gap, zone, trail);
                            let expected = captured(&re, &text);
                            assert_eq!(extracted(&text), expected, "{:?}", text);
                            total += 1;
                            if expected.is_some() {
                                matched += 1;
                            }
                        }
                    }
                }
            }
        }
    }
    assert!(matched > 1000 && total - matched > 1000);
}

#[test]
fn extract_agrees_with_the_regular_expression_on_scrambled_texts() {
    let re = pattern();
    let alphabet: Vec<char> = "0123456789012345-+\u{2212}:TtZz .,\tx".chars().collect();
    let mut state: u64 = 0x2545f4914f6cdd1d;
    let mut matched = 0;
    for round in 0..60000 {
        let mut text = String::new();
        if round % 2 == 0 {
            text.push_str("2018");
        }
        state = state.wrapping_mul(6364136223846793005).wrapping_add(1442695040888963407);
        let len = (state >> 33) % 14;
        for _ in 0..len {
            state = state.wrapping_mul(6364136223846793005).wrapping_add(1442695040888963407);
            let pick = ((state >> 33) % alphabet.len() as u64) as usize;
            text.push(alphabet[pick]);
        }
        let expected = captured(&re, &text);
        assert_eq!(extracted(&text), expected, "{:?}", text);
        if expected.is_some() {
            matched += 1;
        }
    }
    assert!(matched > 100);
}

#[test]
fn extract_agrees_with_the_regular_expression_on_unusual_white_space() {
    let re = pattern();
    for text in vec![
        "\u{a0}2018\u{2003}03\u{3000}Z\u{85}",
        "\u{1680}2018-10-11\u{2028}\u{2029}03:23\u{202f}+01\u{205f}",
        "\t\n\u{b}\u{c}\r 2018\t\n\u{b}\u{c}\r 0323\t\n\u{b}\u{c}\r -0100\t\n\u{b}\u{c}\r ",
        "2018\u{200a}23",
        "2018\u{200b}23",
        "2018\u{feff}23",
        "\u{180e}2018",
    ] {
        assert_eq!(extracted(text), captured(&re, text), "{:?}", text);
    }
    assert!(extract("\u{a0}2018\u{2003}03\u{3000}Z\u{85}").is_some());
    assert!(extract("2018\u{200b}23").is_none());
}
