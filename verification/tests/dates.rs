use ytpodcast::dates::parse_date;

#[test]
fn epoch_day_zero() {
    assert_eq!(parse_date("19700101"), Some(0));
}

#[test]
fn first_of_twenty_twenty() {
    assert_eq!(parse_date("20200101"), Some(1577836800));
}

#[test]
fn leap_day_accepted() {
    assert_eq!(parse_date("20240229"), Some(1709164800));
}

#[test]
fn leap_day_of_a_common_year_rejected() {
    assert_eq!(parse_date("20230229"), None);
}

#[test]
fn century_year_is_not_a_leap_year() {
    assert_eq!(parse_date("19000229"), None);
    // ... but a year divisible by 400 is.
    assert!(parse_date("20000229").is_some());
}

#[test]
fn dates_before_the_epoch_are_negative() {
    assert_eq!(parse_date("19691231"), Some(-86400));
}

#[test]
fn wrong_length_rejected() {
    assert_eq!(parse_date("2020011"), None);
    assert_eq!(parse_date("202001011"), None);
    assert_eq!(parse_date(""), None);
}

#[test]
fn non_digits_rejected() {
    assert_eq!(parse_date("2020O101"), None);
    assert_eq!(parse_date("abcdefgh"), None);
    assert_eq!(parse_date("2020-1-1"), None);
}

#[test]
fn out_of_range_month_and_day_rejected() {
    assert_eq!(parse_date("20201301"), None);
    assert_eq!(parse_date("20200001"), None);
    assert_eq!(parse_date("20200132"), None);
    assert_eq!(parse_date("20200400"), None);
    assert_eq!(parse_date("20200431"), None);
}

#[test]
fn month_lengths_respected() {
    assert!(parse_date("20240131").is_some());
    assert!(parse_date("20240430").is_some());
    assert_eq!(parse_date("20240431"), None);
}
