use rtc_pl031::pl031::year_offset;
use rtc_pl031::{read_date, read_time};

#[test]
fn decodes_mid_2021() {
    assert_eq!(read_date(1623764730), Ok((21, 6, 15)));
    assert_eq!(read_time(1623764730), Ok((13, 45, 30)));
}

#[test]
fn epoch_year_wraps_below_2000() {
    assert_eq!(read_date(0), Ok((226, 1, 1)));
    assert_eq!(read_time(0), Ok((0, 0, 0)));
}

#[test]
fn last_second_of_first_day() {
    assert_eq!(read_date(86399), Ok((226, 1, 1)));
    assert_eq!(read_time(86399), Ok((23, 59, 59)));
}

#[test]
fn largest_register_value() {
    assert_eq!(read_date(u32::MAX), Ok((106, 2, 7)));
    assert_eq!(read_time(u32::MAX), Ok((6, 28, 15)));
}

#[test]
fn leap_days() {
    assert_eq!(read_date(951782400), Ok((0, 2, 29)));
    assert_eq!(read_date(1582934400), Ok((20, 2, 29)));
    assert_eq!(read_date(1709251199), Ok((24, 2, 29)));
    assert_eq!(read_time(1709251199), Ok((23, 59, 59)));
}

#[test]
fn century_year_is_not_leap() {
    assert_eq!(read_date(4107542400), Ok((100, 3, 1)));
    assert_eq!(read_date(4107542400 - 1), Ok((100, 2, 28)));
}

#[test]
fn year_offset_truncates_to_eight_bits() {
    assert_eq!(year_offset(2000), 0);
    assert_eq!(year_offset(2021), 21);
    assert_eq!(year_offset(2255), 255);
    assert_eq!(year_offset(2256), 0);
    assert_eq!(year_offset(2300), 44);
    assert_eq!(year_offset(1970), 226);
    assert_eq!(year_offset(1999), 255);
}

#[test]
fn reading_twice_gives_same_result() {
    for t in [0u32, 1623764730, u32::MAX] {
        assert_eq!(read_date(t), read_date(t));
        assert_eq!(read_time(t), read_time(t));
    }
}
