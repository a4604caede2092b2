use clf::error::{AppCustomErrorKind, AppError};
use clf::pattern::{Pattern, PatternSet, PatternType, Re, RegexBundle, RegexVec};

fn strings(v: &[&str]) -> Vec<String> {
    v.iter().map(|s| s.to_string()).collect()
}

fn make_pattern(regexes: &[&str], exceptions: Option<&[&str]>) -> Pattern {
    Pattern {
        regexes: RegexVec::try_from(strings(regexes)).unwrap(),
        exceptions: exceptions.map(|e| RegexBundle::try_from(strings(e)).unwrap()),
    }
}

#[test]
fn pattern() {
    let p = make_pattern(&["^ERROR", "FATAL", "PANIC"], Some(&["^SLIGHT_ERROR", "WARNING", "NOT IMPORTANT$"]));

    assert_eq!(p.regexes.len(), 3);
    assert_eq!(p.exceptions.as_ref().unwrap().len(), 3);

    assert!(p.is_exception("this is NOT IMPORTANT"));

    let re = p.is_match("ERROR: core dump");
    assert!(re.is_some());
    assert!(p.is_match("SLIGHT_ERROR: FATAL").is_none());
    assert_eq!(p.is_match("a PANIC then FATAL").unwrap().as_str(), "FATAL");
}

#[test]
fn try_from_patterntype() {
    let pt = PatternType::try_from("critical").unwrap();
    assert_eq!(pt, PatternType::critical);

    let pt_err = PatternType::try_from("foo");
    assert!(pt_err.is_err());
}

#[test]
fn patterntype_names_and_error() {
    assert_eq!(PatternType::try_from("warning").unwrap(), PatternType::warning);
    assert_eq!(PatternType::try_from("ok").unwrap(), PatternType::ok);
    assert_eq!(PatternType::ok.to_string(), "ok");
    match PatternType::try_from("foo").unwrap_err() {
        AppError::App { err, msg } => {
            assert_eq!(err, AppCustomErrorKind::UnsupportedPatternType);
            assert_eq!(msg, "foo pattern type is not supported");
        }
        _ => panic!("unexpected error"),
    }
}

#[test]
fn try_from_regexvec() {
    let regs = RegexVec::try_from(vec!["^#".to_string(), ";$".to_string()]).unwrap();
    assert_eq!(regs.0.len(), 2);

    let regs_err = RegexVec::try_from(vec!["(error".to_string()]);
    assert!(regs_err.is_err());
    assert!(matches!(regs_err.unwrap_err(), AppError::Regex(_)));
}

#[test]
fn try_from_regexset() {
    let regs = RegexBundle::try_from(vec!["^#".to_string(), ";$".to_string()]).unwrap();
    assert_eq!(regs.len(), 2);

    let regs_err = RegexBundle::try_from(vec!["(error".to_string()]);
    assert!(regs_err.is_err());
}

#[test]
fn regex_basics() {
    let re = Re::new(r"(\d+)-(?P<name>\w+)").unwrap();
    assert_eq!(re.as_str(), r"(\d+)-(?P<name>\w+)");
    assert!(re.is_match("id 12-abc"));
    assert!(!re.is_match("nothing here"));
    let caps = re.captures("id 12-abc").unwrap();
    assert_eq!(caps.len(), 3);
    assert_eq!(caps[0], (None, Some("12-abc".to_string())));
    assert_eq!(caps[1], (None, Some("12".to_string())));
    assert_eq!(caps[2], (Some("name".to_string()), Some("abc".to_string())));
    assert!(re.captures("none").is_none());
    assert!(Re::new("(oops").is_err());
}

#[test]
fn pattern_set() {
    let p = PatternSet {
        critical: Some(make_pattern(
            &["^ERROR", "GnuPG", "PANIC", "WARNING"],
            Some(&["^SLIGHT_ERROR", "WARNING", "NOT IMPORTANT$"]),
        )),
        warning: Some(make_pattern(
            &["ERROR$", "FATAL", "ABEND"],
            Some(&["^MINOR_ERROR", "WARNING", "NOT IMPORTANT$"]),
        )),
        ok: Some(make_pattern(&["^RESET_ERROR", "RESET_FATAL", "RESET_FATAL"], None)),
    };

    // critical
    let match_text = p.is_match("ERROR: core dump ").unwrap();
    assert_eq!(match_text.0, PatternType::critical);
    assert_eq!(match_text.1.as_str(), "^ERROR");
    assert!(p.is_match("SLIGHT_ERROR: core dump ").is_none());

    // warning
    let match_text = p.is_match("this is an ERROR").unwrap();
    assert_eq!(match_text.0, PatternType::warning);
    assert_eq!(match_text.1.as_str(), "ERROR$");
    assert!(p.is_match("MINOR_ERROR: not a core dump ").is_none());

    // ok
    let match_text = p.is_match("RESET_ERROR: error is reset").unwrap();
    assert_eq!(match_text.0, PatternType::ok);
    assert_eq!(match_text.1.as_str(), "^RESET_ERROR");
}

#[test]
fn pattern_set_copy_matches_alike() {
    let p = PatternSet {
        critical: Some(make_pattern(&["^ERROR"], Some(&["^ERROR: ignore"]))),
        warning: Some(make_pattern(&["WARN", "NOTICE"], None)),
        ok: None,
    };
    let q = p.clone();
    for line in ["ERROR: disk", "ERROR: ignore me", "a NOTICE", "WARN", "fine", ""] {
        let a = p.is_match(line).map(|(t, re)| (t, re.as_str().to_string()));
        let b = q.is_match(line).map(|(t, re)| (t, re.as_str().to_string()));
        assert_eq!(a, b);
    }
    assert_eq!(q.is_match("a NOTICE").unwrap().1.as_str(), "NOTICE");
    assert!(q.is_match("ERROR: ignore me").is_none());
}
