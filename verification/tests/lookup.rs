use clf::logfile::RunData;
use clf::lookup::{set_hit_vars, Scan};
use clf::options::SearchOptions;
use clf::pattern::{Pattern, PatternSet, PatternType, Re, RegexVec};
use clf::variables::Variables;

fn patterns() -> PatternSet {
    let p = |v: &[&str]| Pattern {
        regexes: RegexVec::try_from(v.iter().map(|s| s.to_string()).collect()).unwrap(),
        exceptions: None,
    };
    PatternSet { critical: Some(p(&["^ERROR"])), warning: Some(p(&["WARN"])), ok: Some(p(&["^RESET"])) }
}

fn rundata() -> RunData {
    let mut r = RunData::new("tag1");
    r.last_offset = 100;
    r.last_line = 10;
    r
}

#[test]
fn scan_start_and_rewind() {
    let o = SearchOptions::try_from("runcallback".to_string()).unwrap();
    let s = Scan::start(&rundata(), &o, false);
    assert_eq!(s.bytes_count, 100);
    assert_eq!(s.line_number, 10);
    let o = SearchOptions::try_from("rewind".to_string()).unwrap();
    let s = Scan::start(&rundata(), &o, false);
    assert_eq!(s.bytes_count, 0);
    assert_eq!(s.line_number, 0);
}

#[test]
fn scan_thresholds_and_reset() {
    let o = SearchOptions::try_from("runcallback, criticalthreshold=2".to_string()).unwrap();
    let p = patterns();
    let mut s = Scan::start(&rundata(), &o, false);

    assert!(s.on_line(&o, &p, &None, "ERROR one\n", 10).is_none());
    let (v, re) = s.on_line(&o, &p, &None, "ERROR two\n", 10).unwrap();
    assert_eq!(v.pattern_type, PatternType::critical);
    assert!(v.run_callback);
    assert_eq!(re.as_str(), "^ERROR");
    assert_eq!(s.critical_hits, 2);
    assert_eq!(s.counters.critical_count, 1);

    let (v, _) = s.on_line(&o, &p, &None, "RESET all\n", 10).unwrap();
    assert_eq!(v.pattern_type, PatternType::ok);
    assert!(!v.run_callback);
    assert_eq!(s.critical_hits, 0);
    assert_eq!(s.counters.ok_count, 1);

    assert!(s.on_line(&o, &p, &None, "nothing\n", 8).is_none());
    assert_eq!(s.bytes_count, 138);
    assert_eq!(s.line_number, 14);

    let mut r = rundata();
    s.finish(&mut r, 5000);
    assert_eq!(r.last_offset, 138);
    assert_eq!(r.last_line, 14);
    assert_eq!(r.last_run, 5000);
}

#[test]
fn scan_runlimit_law_example() {
    let o = SearchOptions::try_from("runcallback, runlimit=2".to_string()).unwrap();
    let p = patterns();
    let mut s = Scan::start(&rundata(), &o, false);
    let mut runs = 0;
    for _ in 0..5 {
        let (v, _) = s.on_line(&o, &p, &None, "a WARN line\n", 12).unwrap();
        assert_eq!(v.pattern_type, PatternType::warning);
        if v.run_callback {
            runs += 1;
        }
    }
    assert_eq!(runs, 2);
    assert_eq!(s.counters.exec_count, 2);
    assert_eq!(s.counters.warning_count, 5);
}

#[test]
fn scan_truncate_and_stopat() {
    let o = SearchOptions::try_from("truncate=5, stopat=12".to_string()).unwrap();
    let p = patterns();
    let mut s = Scan::start(&rundata(), &o, false);
    // the match on WARN is beyond the 5 first characters
    assert!(s.on_line(&o, &p, &None, "abcdeWARN\n", 10).is_none());
    assert!(!s.is_stopped(&o));
    let (v, _) = s.on_line(&o, &p, &None, "ERRORS\n", 7).unwrap();
    assert_eq!(v.pattern_type, PatternType::critical);
    assert!(!v.run_callback);
    assert!(s.is_stopped(&o));
}

#[test]
fn hit_variables() {
    let o = SearchOptions::try_from("runcallback".to_string()).unwrap();
    let p = patterns();
    let mut s = Scan::start(&rundata(), &o, false);
    let line = "ERROR: disk full\n";
    let (v, re) = s.on_line(&o, &p, &None, line, line.len() as u64).unwrap();
    let mut vars = Variables::new();
    set_hit_vars(&mut vars, "tag1", line, &s, &v, re);
    assert_eq!(vars.get("CLF_LINE_NUMBER").unwrap(), "11");
    assert_eq!(vars.get("CLF_LINE").unwrap(), line);
    assert_eq!(vars.get("CLF_MATCHED_RE").unwrap(), "^ERROR");
    assert_eq!(vars.get("CLF_MATCHED_RE_TYPE").unwrap(), "critical");
    assert_eq!(vars.get("CLF_TAG").unwrap(), "tag1");
    assert_eq!(vars.get("CLF_CG_0").unwrap(), "ERROR");
    assert_eq!(vars.get("CLF_NB_CG").unwrap(), "1");
    assert_eq!(vars.get("CLF_CRITICAL_COUNT").unwrap(), "1");
    assert_eq!(vars.get("CLF_WARNING_COUNT").unwrap(), "0");
    assert_eq!(vars.get("CLF_OK_COUNT").unwrap(), "0");
    assert!(!vars.contains_key("CLF_CAPTURE0"));
}

#[test]
fn scan_exclude_fastforward_runifok() {
    let p = patterns();
    // lines that the exclude regex matches are counted and otherwise ignored
    let o = SearchOptions::try_from("runcallback".to_string()).unwrap();
    let exclude = Some(Re::new("^#").unwrap());
    let mut s = Scan::start(&rundata(), &o, false);
    assert!(s.on_line(&o, &p, &exclude, "# ERROR in a comment\n", 21).is_none());
    assert_eq!(s.line_number, 11);
    assert_eq!(s.counters.critical_count, 0);
    assert!(s.on_line(&o, &p, &exclude, "ERROR for real\n", 15).is_some());

    // fast forward on a logfile not searched before: lines are only counted
    let o = SearchOptions::try_from("runcallback, fastforward".to_string()).unwrap();
    let mut s = Scan::start(&rundata(), &o, true);
    assert!(s.fast_forward);
    assert!(s.on_line(&o, &p, &None, "ERROR one\n", 10).is_none());
    assert!(s.on_line(&o, &p, &None, "RESET\n", 6).is_none());
    assert_eq!(s.line_number, 12);
    assert_eq!(s.bytes_count, 116);
    assert_eq!(s.counters.exec_count, 0);
    // but not on one searched before
    assert!(!Scan::start(&rundata(), &o, false).fast_forward);

    // ok matches run the callback only with runifok
    let o = SearchOptions::try_from("runcallback, runifok".to_string()).unwrap();
    let mut s = Scan::start(&rundata(), &o, false);
    let (v, _) = s.on_line(&o, &p, &None, "RESET all\n", 10).unwrap();
    assert_eq!(v.pattern_type, PatternType::ok);
    assert!(v.run_callback);
    assert_eq!(s.counters.exec_count, 1);
}

#[test]
fn scan_saves_threshold_counts() {
    let p = patterns();
    let o = SearchOptions::try_from("criticalthreshold=3, savethresholds".to_string()).unwrap();
    assert!(o.savethresholdcount);
    let mut r = rundata();
    let mut s = Scan::start(&r, &o, false);
    assert!(s.on_line(&o, &p, &None, "ERROR one\n", 10).is_none());
    assert!(s.on_line(&o, &p, &None, "ERROR two\n", 10).is_none());
    s.finish(&mut r, 100);
    assert_eq!(r.critical_hits, 2);
    // the next run goes on counting toward the threshold
    let mut s = Scan::start(&r, &o, false);
    assert_eq!(s.critical_hits, 2);
    let (v, _) = s.on_line(&o, &p, &None, "ERROR three\n", 12).unwrap();
    assert_eq!(v.pattern_type, PatternType::critical);
    // without the option it starts again from 0
    let o = SearchOptions::try_from("criticalthreshold=3".to_string()).unwrap();
    assert_eq!(Scan::start(&r, &o, false).critical_hits, 0);
}
