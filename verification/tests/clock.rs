use dsh_launcher::clock::{dsh_log, hms, hms_now, hms_since, log_line};

#[test]
fn time_of_day() {
    assert_eq!(hms(0), "00:00:00");
    assert_eq!(hms(3661), "01:01:01");
    assert_eq!(hms(86399), "23:59:59");
    assert_eq!(hms(86400), "00:00:00");
    assert_eq!(hms(1_700_000_000), "22:13:20");
    assert_eq!(hms(u64::MAX), hms(u64::MAX - 86400));
    assert_eq!(hms_since(None), "00:00:00");
    assert_eq!(hms_since(Some(3661)), "01:01:01");
}

#[test]
fn now_is_a_time_of_day() {
    let now = hms_now();
    assert_eq!(now.len(), 8);
    assert_eq!(&now[2..3], ":");
    assert_eq!(&now[5..6], ":");
    assert!(now[0..2].parse::<u8>().unwrap() < 24);
    assert!(now[3..5].parse::<u8>().unwrap() < 60);
    assert!(now[6..8].parse::<u8>().unwrap() < 60);
}

#[test]
fn lines_of_the_log() {
    assert_eq!(log_line("12:34:56", "[INFO] x"), "[12:34:56] [INFO] x");
    let line = dsh_log("[WARN] y");
    assert_eq!(line.len(), 10 + 1 + 8);
    assert!(line.starts_with('['));
    assert!(line.ends_with("] [WARN] y"));
}
