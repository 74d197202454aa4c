use podcast_proxy::dates::Date;
use podcast_proxy::dates::civil_of_day_number;
use podcast_proxy::dates::day_number;
use podcast_proxy::dates::parse_upload_date;
use podcast_proxy::dates::rfc2822_utc_midnight;

#[test]
fn parse_accepts_valid_dates() {
    assert_eq!(
        parse_upload_date("20240229"),
        Some(Date { year: 2024, month: 2, day: 29 })
    );
    assert_eq!(
        parse_upload_date("19700101"),
        Some(Date { year: 1970, month: 1, day: 1 })
    );
    assert_eq!(
        parse_upload_date("99991231"),
        Some(Date { year: 9999, month: 12, day: 31 })
    );
}

#[test]
fn parse_rejects_invalid_dates() {
    // not a leap year
    assert_eq!(parse_upload_date("20230229"), None);
    // bad month and bad day
    assert_eq!(parse_upload_date("20241301"), None);
    assert_eq!(parse_upload_date("20240132"), None);
    assert_eq!(parse_upload_date("20240001"), None);
    assert_eq!(parse_upload_date("20240100"), None);
    // wrong length or non-digits
    assert_eq!(parse_upload_date("2024030"), None);
    assert_eq!(parse_upload_date("202403055"), None);
    assert_eq!(parse_upload_date("2024030a"), None);
    assert_eq!(parse_upload_date(""), None);
}

#[test]
fn day_numbers_around_the_epoch() {
    assert_eq!(day_number(&Date { year: 1970, month: 1, day: 1 }), 0);
    assert_eq!(day_number(&Date { year: 1970, month: 1, day: 2 }), 1);
    assert_eq!(day_number(&Date { year: 1969, month: 12, day: 31 }), -1);
    assert_eq!(day_number(&Date { year: 2000, month: 1, day: 1 }), 10957);
    assert_eq!(day_number(&Date { year: 2024, month: 3, day: 1 }), 19783);
}

#[test]
fn civil_of_day_number_inverts_day_number() {
    let d = Date { year: 2024, month: 3, day: 15 };
    assert_eq!(civil_of_day_number(day_number(&d)), d);
    assert_eq!(civil_of_day_number(0), Date { year: 1970, month: 1, day: 1 });
    assert_eq!(civil_of_day_number(10957), Date { year: 2000, month: 1, day: 1 });
}

#[test]
fn rfc2822_renders_utc_midnight() {
    assert_eq!(
        rfc2822_utc_midnight(&Date { year: 1970, month: 1, day: 1 }),
        "Thu, 01 Jan 1970 00:00:00 +0000"
    );
    assert_eq!(
        rfc2822_utc_midnight(&Date { year: 2024, month: 3, day: 5 }),
        "Tue, 05 Mar 2024 00:00:00 +0000"
    );
    assert_eq!(
        rfc2822_utc_midnight(&Date { year: 999, month: 12, day: 25 }),
        "Wed, 25 Dec 0999 00:00:00 +0000"
    );
}
