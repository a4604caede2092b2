use clf::error::{AppCustomErrorKind, AppError};
use clf::options::SearchOptions;

#[test]
fn options_search_options() {
    let opts = SearchOptions::try_from("runcallback, keepoutput, rewind, criticalthreshold=10, warningthreshold=15, protocol, savethresholdcount, sticky=5, runlimit=10, truncate=80".to_string()).unwrap();

    assert!(opts.runcallback);
    assert!(opts.keepoutput);
    assert!(opts.rewind);
    assert!(opts.savethresholdcount);
    assert!(opts.protocol);

    assert_eq!(opts.criticalthreshold, 10);
    assert_eq!(opts.warningthreshold, 15);
    assert_eq!(opts.sticky, 5);
    assert_eq!(opts.criticalthreshold, 10);
    assert_eq!(opts.runlimit, 10);
    assert_eq!(opts.truncate, 80);
}

#[test]
fn config_search_options() {
    let opts = SearchOptions::try_from("runcallback, keepoutput, rewind, criticalthreshold=10, warningthreshold=15, protocol, savethresholdcount, sticky=5, runlimit=10".to_string()).unwrap();

    assert!(opts.runcallback);
    assert!(opts.keepoutput);
    assert!(opts.rewind);
    assert!(opts.savethresholdcount);
    assert!(opts.protocol);

    assert_eq!(opts.criticalthreshold, 10);
    assert_eq!(opts.warningthreshold, 15);
    assert_eq!(opts.sticky, 5);
    assert_eq!(opts.criticalthreshold, 10);
    assert_eq!(opts.runlimit, 10);
}

#[test]
fn search_options_defaults() {
    let opts = SearchOptions::try_from("rewind".to_string()).unwrap();
    assert!(opts.rewind);
    assert!(!opts.runcallback);
    assert!(!opts.fastforward);
    assert_eq!(opts.criticalthreshold, 0);
    assert_eq!(opts.warningthreshold, 0);
    assert_eq!(opts.runlimit, u64::MAX);
    assert_eq!(opts.truncate, usize::MAX);
    assert_eq!(opts.stopat, u64::MAX);
    assert_eq!(opts.sticky, u16::MAX);

    let d = SearchOptions::default();
    assert_eq!(d.runlimit, u64::MAX);
    assert_eq!(d.truncate, usize::MAX);
    assert_eq!(d.stopat, u64::MAX);
    assert!(!d.rewind);
}

#[test]
fn search_options_last_value_wins() {
    let opts = SearchOptions::try_from("criticalthreshold=3, stopat = 7,criticalthreshold=+12".to_string()).unwrap();
    assert_eq!(opts.criticalthreshold, 12);
    assert_eq!(opts.stopat, 7);
}

#[test]
fn search_options_unsupported() {
    let err = SearchOptions::try_from("runcallback, dontbreak".to_string()).unwrap_err();
    match err {
        AppError::App { err, msg } => {
            assert_eq!(err, AppCustomErrorKind::UnsupportedSearchOption);
            assert_eq!(msg, "search option: dontbreak  is not supported");
        }
        _ => panic!("unexpected error"),
    }
}

#[test]
fn search_options_values_parse() {
    assert!(SearchOptions::values_parse("sticky=5, runlimit=10"));
    assert!(!SearchOptions::values_parse("sticky=70000"));
    assert!(!SearchOptions::values_parse("criticalthreshold=abc"));
    assert!(SearchOptions::values_parse("rewind, keepoutput"));
}
