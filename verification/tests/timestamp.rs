use rmwrs::removal::{record_after_rename, removal_target};
use rmwrs::timestamp::{deletion_date, noclobber_suffix, LocalTime};

fn at(year: i32, month: u32, day: u32, hour: u32, minute: u32, second: u32) -> LocalTime {
    LocalTime { year, month, day, hour, minute, second, nanosecond: 0 }
}

#[test]
fn deletion_date_format() {
    assert_eq!(deletion_date(&at(2020, 7, 23, 20, 56, 3)), "2020-07-23T20:56:03");
    assert_eq!(deletion_date(&at(987, 1, 2, 0, 0, 0)), "0987-01-02T00:00:00");
    assert_eq!(deletion_date(&at(10000, 12, 31, 23, 59, 59)), "+10000-12-31T23:59:59");
    assert_eq!(deletion_date(&at(-1, 2, 28, 1, 2, 3)), "-0001-02-28T01:02:03");
    assert_eq!(deletion_date(&at(-12345, 3, 4, 5, 6, 7)), "-12345-03-04T05:06:07");
    assert_eq!(deletion_date(&at(2024, 2, 29, 12, 0, 0)), "2024-02-29T12:00:00");
}

#[test]
fn noclobber_suffix_format() {
    assert_eq!(noclobber_suffix(&at(2020, 7, 23, 20, 56, 3)), "_205603-200723");
    assert_eq!(noclobber_suffix(&at(2001, 1, 2, 3, 4, 5)), "_030405-010102");
    assert_eq!(noclobber_suffix(&at(-5, 1, 2, 3, 4, 5)), "_030405-950102");
}

#[test]
fn leap_second_shows_as_sixty() {
    let t = LocalTime {
        year: 2016,
        month: 12,
        day: 31,
        hour: 23,
        minute: 59,
        second: 59,
        nanosecond: 1_500_000_000,
    };
    assert_eq!(deletion_date(&t), "2016-12-31T23:59:60");
    assert_eq!(noclobber_suffix(&t), "_235960-161231");
}

#[test]
fn target_of_a_removal() {
    let t = at(2020, 7, 23, 20, 56, 3);
    let r = removal_target("/w/files", "/home/u/report.txt", false, &t);
    assert_eq!(r.basename, "report.txt");
    assert_eq!(r.destination, "/w/files/report.txt");
    let r = removal_target("/w/files", "/home/u/report.txt", true, &t);
    assert_eq!(r.basename, "report.txt_205603-200723");
    assert_eq!(r.destination, "/w/files/report.txt_205603-200723");
}

#[test]
fn record_only_after_a_move() {
    let t = at(2020, 7, 23, 20, 56, 3);
    let r = removal_target("/w/files", "a b", true, &t);
    assert!(record_after_rename(&r, false, "/home/u/a b", "/w/info", &t).is_none());
    let rec = record_after_rename(&r, true, "/home/u/a b", "/w/info", &t).unwrap();
    assert_eq!(rec.info_file, "/w/info/a b_205603-200723.trashinfo");
    assert_eq!(
        rec.contents,
        "[Trash Info]\nPath=/home/u/a%20b\nDeletionDate=2020-07-23T20:56:03\n"
    );
    assert_eq!(rec.listed, "/w/files/a b_205603-200723");
}
