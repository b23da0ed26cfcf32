use git2json::{parse_log, Commit, ErrorKind, Timestamp, Width};

const HASH: &str = "0123456789abcdef0123456789abcdef01234567";

fn record(trailer: &str) -> String {
    format!(
        "{} 2021-05-01T12:00:00+00:00 dev@example.com 2021-05-01T12:05:00+00:00\n{}",
        HASH, trailer
    )
}

#[test]
fn timestamp_leap_day_accepted() {
    assert!(Timestamp::parse("2024-02-29T10:00:00Z").is_ok());
}

#[test]
fn timestamp_leap_day_in_common_year_rejected() {
    let e = Timestamp::parse("2023-02-29T10:00:00Z").unwrap_err();
    assert_eq!(e.kind, ErrorKind::InvalidTimestamp);
    assert_eq!(e.text, "2023-02-29T10:00:00Z");
}

#[test]
fn timestamp_without_offset_rejected() {
    assert!(Timestamp::parse("2024-01-01T10:00:00").is_err());
}

#[test]
fn timestamp_with_offset_accepted() {
    let t = Timestamp::parse("2024-01-01T10:00:00+05:30").unwrap();
    assert_eq!(t.as_str(), "2024-01-01T10:00:00+05:30");
}

#[test]
fn timestamp_near_misses_rejected() {
    for s in [
        "2024-01-01T10:00:00.5Z",
        "2024-13-01T10:00:00Z",
        "2024-04-31T10:00:00Z",
        "2024-01-01T24:00:00Z",
        "2024-01-01T10:60:00Z",
        "0999-01-01T10:00:00Z",
        "2024-01-01 10:00:00Z",
        "2024-01-01T10:00:00+5:30",
        "2024-01-01T10:00:00+20:00",
        "2100-02-29T10:00:00Z",
        "",
    ] {
        assert!(Timestamp::parse(s).is_err(), "{}", s);
    }
    assert!(Timestamp::parse("2000-02-29T10:00:00Z").is_ok());
    assert!(Timestamp::parse("1999-12-31T23:59:59-11:45").is_ok());
}

#[test]
fn timestamp_matches_reference_pattern() {
    let re = regex::Regex::new(
        r"^(?:[1-9]\d{3}-(?:(?:0[1-9]|1[0-2])-(?:0[1-9]|1\d|2[0-8])|(?:0[13-9]|1[0-2])-(?:29|30)|(?:0[13578]|1[02])-31)|(?:[1-9]\d(?:0[48]|[2468][048]|[13579][26])|(?:[2468][048]|[13579][26])00)-02-29)T(?:[01]\d|2[0-3]):[0-5]\d:[0-5]\d(?:Z|[+-][01]\d:[0-5]\d)$",
    )
    .unwrap();
    for year in [1600, 1900, 1999, 2000, 2023, 2024, 2100, 2400] {
        for month in 0..=13 {
            for day in [0, 1, 28, 29, 30, 31, 32] {
                for tail in ["Z", "+19:59", "-20:00", "+05:60", ""] {
                    let s = format!("{:04}-{:02}-{:02}T23:59:59{}", year, month, day, tail);
                    assert_eq!(Timestamp::parse(&s).is_ok(), re.is_match(&s), "{}", s);
                }
            }
        }
    }
}

#[test]
fn hash_of_forty_characters_accepted() {
    let c = Commit::parse(&record(""), Width::Bits32).unwrap();
    assert_eq!(c.hash.len(), 40);
}

#[test]
fn hash_of_other_length_rejected() {
    for h in ["", "abc", "0123456789abcdef0123456789abcdef012345678"] {
        let s = format!("{} 2021-05-01T12:00:00Z a@b 2021-05-01T12:00:00Z", h);
        let e = Commit::parse(&s, Width::Bits32).unwrap_err();
        assert_eq!(e.kind, ErrorKind::InvalidHash);
        assert_eq!(e.text, h);
    }
}

#[test]
fn trailer_without_phrases_gives_zero_counts() {
    let c = Commit::parse(&record("Merge branch 'main'"), Width::Bits32).unwrap();
    assert_eq!((c.files_changed, c.insertions, c.deletions), (0, 0, 0));
    let c = Commit::parse(&record(""), Width::Bits32).unwrap();
    assert_eq!((c.files_changed, c.insertions, c.deletions), (0, 0, 0));
}

#[test]
fn trailer_with_all_phrases() {
    let c = Commit::parse(
        &record("3 files changed, 10 insertions(+), 2 deletions(-)"),
        Width::Bits32,
    )
    .unwrap();
    assert_eq!((c.files_changed, c.insertions, c.deletions), (3, 10, 2));
}

#[test]
fn trailer_without_deletions() {
    let c = Commit::parse(&record("1 file changed, 4 insertions(+)"), Width::Bits32).unwrap();
    assert_eq!((c.files_changed, c.insertions, c.deletions), (1, 4, 0));
}

#[test]
fn trailer_with_deletions_only() {
    let c = Commit::parse(&record("1 file changed, 1 deletion(-)"), Width::Bits16).unwrap();
    assert_eq!((c.files_changed, c.insertions, c.deletions), (1, 0, 1));
}

#[test]
fn count_beyond_width_is_overflow() {
    let e = Commit::parse(&record("70000 files changed"), Width::Bits16).unwrap_err();
    assert_eq!(e.kind, ErrorKind::NumericOverflow);
    assert_eq!(e.text, "70000");
    let c = Commit::parse(&record("70000 files changed"), Width::Bits32).unwrap();
    assert_eq!(c.files_changed, 70000);
    let e = Commit::parse(&record("1 file changed, 99999999999999999999 insertions(+)"), Width::Bits64)
        .unwrap_err();
    assert_eq!(e.kind, ErrorKind::NumericOverflow);
    assert_eq!(e.text, "99999999999999999999");
    let c = Commit::parse(&record("18446744073709551615 deletions(-)"), Width::Bits64).unwrap();
    assert_eq!(c.deletions, u64::MAX);
}

#[test]
fn bad_author_timestamp_is_reported() {
    let s = format!("{} 2021-05-01 dev@example.com 2021-05-01T12:05:00Z", HASH);
    let e = Commit::parse(&s, Width::Bits32).unwrap_err();
    assert_eq!(e.kind, ErrorKind::InvalidTimestamp);
    assert_eq!(e.text, "2021-05-01");
    assert_eq!(e.message(), "invalid timestamp '2021-05-01'");
}

#[test]
fn missing_tokens_are_rejected() {
    let e = Commit::parse(HASH, Width::Bits32).unwrap_err();
    assert_eq!(e.kind, ErrorKind::InvalidTimestamp);
    assert_eq!(e.text, "");
}

#[test]
fn end_to_end_record() {
    let text = format!(
        "\0{} 2021-05-01T12:00:00+00:00 dev@example.com 2021-05-01T12:05:00+00:00\n2 files changed, 5 insertions(+), 1 deletion(-)",
        HASH
    );
    let commits = parse_log(&text, Width::Bits32).unwrap();
    assert_eq!(commits.len(), 1);
    let c = &commits[0];
    assert_eq!(c.hash, HASH);
    assert_eq!(c.author_date.as_str(), "2021-05-01T12:00:00+00:00");
    assert_eq!(c.author_email, "dev@example.com");
    assert_eq!(c.commit_date.as_str(), "2021-05-01T12:05:00+00:00");
    assert_eq!((c.files_changed, c.insertions, c.deletions), (2, 5, 1));
    let schema = git2json::Schema::new(Width::Bits32);
    let lines = git2json::to_csv(&schema, &commits);
    assert_eq!(
        lines[1],
        format!("{},2021-05-01T12:00:00+00:00,dev@example.com,2021-05-01T12:05:00+00:00,2,5,1", HASH)
    );
}

#[test]
fn log_skips_empty_records_and_keeps_order() {
    let a = format!("{} 2021-05-01T12:00:00Z a@x 2021-05-01T12:00:00Z\n\n 1 file changed\n", HASH);
    let h2 = "ffffffffffffffffffffffffffffffffffffffff";
    let b = format!("{} 2020-01-01T00:00:00Z b@x 2020-01-01T00:00:00Z", h2);
    let text = format!("\0{}\0\0  \n\0{}\0", a, b);
    let commits = parse_log(&text, Width::Bits32).unwrap();
    assert_eq!(commits.len(), 2);
    assert_eq!(commits[0].hash, HASH);
    assert_eq!(commits[0].files_changed, 1);
    assert_eq!(commits[1].hash, h2);
    assert_eq!(commits[1].author_email, "b@x");
}

#[test]
fn log_stops_at_first_bad_record() {
    let text = format!("\0{} 2021-05-01T12:00:00Z a@x 2021-05-01T12:00:00Z\0short 1\0also bad", HASH);
    let e = parse_log(&text, Width::Bits32).unwrap_err();
    assert_eq!(e.kind, ErrorKind::InvalidHash);
    assert_eq!(e.text, "short");
}

#[test]
fn empty_log_has_no_commits() {
    assert_eq!(parse_log("", Width::Bits64).unwrap().len(), 0);
    assert_eq!(parse_log("\0\0 \n", Width::Bits64).unwrap().len(), 0);
}
