use clf::error::{AppCustomErrorKind, AppError};
use clf::nagios::{LogfileCounter, LogfileMatchCounter, MatchCounter, NagiosError, NagiosVersion};

#[test]
fn nagios_convert() {
    let mut err = NagiosError::from_str("ok").unwrap();
    assert_eq!(err, NagiosError::OK);

    err = NagiosError::from_str("CRITICAL").unwrap();
    assert_eq!(err, NagiosError::CRITICAL);

    err = NagiosError::from_str("warning").unwrap();
    assert_eq!(err, NagiosError::WARNING);

    err = NagiosError::from_str("foo").unwrap();
    assert_eq!(err, NagiosError::UNKNOWN);
}

#[test]
fn nagios_from_upper_and_codes() {
    assert_eq!(NagiosError::from_upper("WARNING"), NagiosError::WARNING);
    assert_eq!(NagiosError::from_upper("warning"), NagiosError::UNKNOWN);
    assert_eq!(NagiosError::CRITICAL.code(), 2);
    assert_eq!(NagiosError::OK.name(), "OK");
    assert_eq!(NagiosError::default(), NagiosError::UNKNOWN);
    assert_eq!(NagiosVersion::from_str("2").unwrap(), NagiosVersion::NagiosNrpe2);
    assert_eq!(NagiosVersion::from_str("3").unwrap(), NagiosVersion::NagiosNrpe3);
}

#[test]
fn display() {
    let mut m = MatchCounter {
        critical_count: 10,
        warning_count: 100,
        unknown_count: 0,
        logfile_error: None,
    };
    assert_eq!(&m.to_string(), "CRITICAL - (errors:10, warnings:100, unknowns:0)");

    m.unknown_count = 1;
    assert_eq!(&m.to_string(), "CRITICAL - (errors:10, warnings:100, unknowns:1)");
}

#[test]
fn from_matcher() {
    let mut m = MatchCounter {
        critical_count: 0,
        warning_count: 0,
        unknown_count: 0,
        logfile_error: None,
    };
    assert_eq!(NagiosError::from(&m), NagiosError::OK);

    m.warning_count = 1;
    assert_eq!(NagiosError::from(&m), NagiosError::WARNING);

    m.unknown_count = 1;
    assert_eq!(NagiosError::from(&m), NagiosError::WARNING);
}

#[test]
fn from_matcher_unknown_only() {
    let m = MatchCounter { critical_count: 0, warning_count: 0, unknown_count: 2, logfile_error: None };
    assert_eq!(NagiosError::from(&m), NagiosError::UNKNOWN);
    assert_eq!(&m.to_string(), "UNKNOWN - (errors:0, warnings:0, unknowns:2)");
}

#[test]
fn match_counter_output() {
    let mut m = MatchCounter::default();
    assert_eq!(m.output(), "OK - no errors or warnings");
    m.critical_count = 3;
    assert_eq!(m.output(), "CRITICAL - (3 errors)");
    m.warning_count = 2;
    assert_eq!(m.output(), "CRITICAL - (3 errors, 2 warnings)");
    m.critical_count = 0;
    assert_eq!(m.output(), "WARNING - (2 warnings)");
}

#[test]
fn logfile_matcher() {
    let mut m = LogfileMatchCounter::new();
    let a = m.or_default("/usr/bin/gzip");
    a.logfile_error = Some(AppError::new(AppCustomErrorKind::UnsupportedPatternType, "foo"));
    let _b = m.or_default("/usr/bin/md5sum");

    assert_eq!(m.iter().len(), 2);
    assert!(m.is_error());
}

#[test]
fn nagios_or_insert() {
    let mut counter = LogfileMatchCounter::new();
    assert_eq!(counter.iter().len(), 0);

    let x = counter.or_default("/usr/bin/gzip");
    x.critical_count = 100;
    x.warning_count = 200;

    let y = counter.or_default("/usr/bin/gzip");
    assert_eq!(y.critical_count, 100);
    assert_eq!(y.warning_count, 200);
    assert!(!counter.is_error());
}

#[test]
fn logfile_counter_increments() {
    let mut c = LogfileCounter::Stats(MatchCounter::default());
    c.inc_warning();
    c.inc_critical();
    c.inc_critical();
    match &c {
        LogfileCounter::Stats(m) => {
            assert_eq!(m.warning_count, 1);
            assert_eq!(m.critical_count, 2);
        }
        _ => panic!("unexpected"),
    }
    let mut e = LogfileCounter::ErrorMsg("no such file".to_string());
    e.inc_warning();
    assert!(matches!(e, LogfileCounter::ErrorMsg(ref s) if s == "no such file"));
}

#[test]
fn logfile_match_counter_set_error() {
    let mut m = LogfileMatchCounter::new();
    let c = m.or_default("/var/log/syslog");
    c.critical_count = 4;
    m.set_error("/var/log/syslog", AppError::new(AppCustomErrorKind::FileNotUsable, "denied"), NagiosError::UNKNOWN);
    let v = m.iter();
    assert_eq!(v.len(), 1);
    assert_eq!(v[0].0, "/var/log/syslog");
    assert_eq!(v[0].1.critical_count, 0);
    assert_eq!(v[0].1.unknown_count, 1);
    assert!(v[0].1.logfile_error.is_some());

    // a missing logfile is reported in its logfilemissing category
    m.set_error("/var/log/auth.log", AppError::new(AppCustomErrorKind::FileNotUsable, "gone"), NagiosError::CRITICAL);
    m.set_error("/var/log/boot.log", AppError::new(AppCustomErrorKind::FileNotUsable, "gone"), NagiosError::WARNING);
    let t = m.total();
    assert_eq!((t.critical_count, t.warning_count, t.unknown_count), (1, 1, 1));
    assert_eq!(NagiosError::from(&t), NagiosError::CRITICAL);
}
