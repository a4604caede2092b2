use clf::bufreader::{after_skip, ClfBufRead, ClfBufReader, SeekPlan, SeekPos};
use clf::callback::{child_action, frame_payload, ChildAction, Callback, CallbackType, Cmd};
use clf::cli::{CliArgs, CliOptions, LogLevel, ReaderCallType};
use clf::error::{AppCustomErrorKind, AppError, AppExitCode, IoErrorKind};
use clf::nagios::NagiosVersion;
use clf::script::{Script, ScriptOutcome, ScriptStatus};
use clf::table::Table;
use clf::text::{lines_of, u64_to_decimal};
use clf::util::Util;
use clf::pattern::Re;
use clf::vars::{VarType, Vars};

#[test]
fn frame_small_payload() {
    let f = frame_payload("{\"a\":1}");
    assert_eq!(f, vec![0, 7, b'{', b'"', b'a', b'"', b':', b'1', b'}']);
    let big = "x".repeat(70000);
    let f = frame_payload(&big);
    assert_eq!(f.len(), 65537);
    assert_eq!(&f[0..2], &[0xff, 0xff]);
}

#[test]
fn child_actions() {
    assert_eq!(child_action(true, 100, 10), ChildAction::Exited);
    assert_eq!(child_action(false, 100, 10), ChildAction::Kill);
    assert_eq!(child_action(false, 4, 10), ChildAction::WaitFor(6));
}

#[test]
fn payload_parts_and_env() {
    let cb = Callback {
        callback: CallbackType::Tcp(Some("127.0.0.1:8900".to_string())),
        args: Some(vec!["one".to_string()]),
        timeout: 10,
    };
    let first = cb.payload_parts(true);
    assert!(first.args && first.global && first.vars);
    let next = cb.payload_parts(false);
    assert!(!next.args && !next.global && next.vars);

    let mut global = Table::new();
    let _ = global.insert("CLF_USER".to_string(), "root".to_string());
    let mut rt = Vars::new();
    rt.insert_runtime_var("CLF_LINE_NUMBER", VarType::Int(12));
    let env = Callback::script_env(&global, &rt, Some("/bin"));
    assert_eq!(
        env,
        vec![
            ("CLF_USER".to_string(), "root".to_string()),
            ("CLF_LINE_NUMBER".to_string(), "12".to_string()),
            ("PATH".to_string(), "/bin".to_string())
        ]
    );
    assert_eq!(Callback::default_timeout(), 7200);
}

#[test]
fn cmd_files_of() {
    let files = Cmd::files_of(b"/var/log/syslog\r\n/var/log/kern.log\n").unwrap();
    assert_eq!(files, vec!["/var/log/syslog", "/var/log/kern.log"]);
    assert!(matches!(Cmd::files_of(&[0xff, 0xfe]).unwrap_err(), AppError::Utf8Error(_)));
}

#[test]
fn cli_from_args() {
    let args = CliArgs {
        config: "/etc/clf.yml".to_string(),
        log: None,
        delete_snapshot: true,
        syntax_check: false,
        log_level: Some("Trace".to_string()),
        max_logsize: Some("1000".to_string()),
        show_options: false,
        show_rendered: false,
        nagios_version: Some("2".to_string()),
        no_callback: true,
        snapshot: Some("/tmp/snap.json".to_string()),
        context: None,
        vars: Some(vec!["A:b".to_string()]),
        overwrite_log: true,
    };
    let o = CliOptions::from_args(args, "/tmp/clf.log".to_string());
    assert_eq!(o.config_file, "/etc/clf.yml");
    assert_eq!(o.clf_logger, "/tmp/clf.log");
    assert!(o.delete_snapfile);
    assert_eq!(o.logger_level, LogLevel::Trace);
    assert_eq!(o.max_logger_size, 1000 * 1024 * 1024);
    assert_eq!(o.nagios_version, NagiosVersion::NagiosNrpe2);
    assert_eq!(o.reader_type, ReaderCallType::BypassReaderCall);
    assert_eq!(o.snapshot_file.as_deref(), Some("/tmp/snap.json"));
    assert!(o.reset_log);

    let args = CliArgs {
        config: "c.yml".to_string(),
        log: Some("/var/log/clf.log".to_string()),
        delete_snapshot: false,
        syntax_check: true,
        log_level: None,
        max_logsize: Some("big".to_string()),
        show_options: false,
        show_rendered: false,
        nagios_version: None,
        no_callback: false,
        snapshot: None,
        context: None,
        vars: None,
        overwrite_log: false,
    };
    let o = CliOptions::from_args(args, "/tmp/clf.log".to_string());
    assert_eq!(o.clf_logger, "/var/log/clf.log");
    assert_eq!(o.logger_level, LogLevel::Info);
    assert_eq!(o.max_logger_size, 52428800);
    assert_eq!(o.nagios_version, NagiosVersion::NagiosNrpe3);
    assert_eq!(o.reader_type, ReaderCallType::FullReaderCall);
    assert!(o.check_conf);
}

#[test]
fn script_outcomes() {
    let mut s = Script { command: vec!["kill.py".to_string()], timeout: 1000, async_flag: false, exit_on_error: true };
    assert_eq!(s.outcome(ScriptStatus::Exited { success: false }), ScriptOutcome::ExitUnknown);
    assert_eq!(s.outcome(ScriptStatus::Exited { success: true }), ScriptOutcome::Continue);
    assert_eq!(s.outcome(ScriptStatus::Running), ScriptOutcome::KillAndExitUnknown);
    assert_eq!(s.outcome(ScriptStatus::Failed), ScriptOutcome::ExitUnknown);
    assert!(s.waits());
    assert_eq!(Script::default_timeout(), 10);
    s.append_pids(&[12, 345]);
    assert_eq!(s.command, vec!["kill.py", "12", "345"]);
    assert_eq!(s.program(), "kill.py");
    assert_eq!(s.arguments(), &["12".to_string(), "345".to_string()]);
    s.async_flag = true;
    assert_eq!(s.outcome(ScriptStatus::Running), ScriptOutcome::Continue);
}

#[test]
fn bufreader_counts_and_seeks() {
    let mut r = ClfBufReader::new(vec![1u8, 2, 3]);
    r.record_read(27);
    r.record_read(0);
    r.record_read(27);
    assert_eq!(r.seek_plan(SeekPos::Current(0)), SeekPlan::At(54));
    assert_eq!(r.seek_plan(SeekPos::Start(0)), SeekPlan::At(0));
    assert_eq!(r.seek_plan(SeekPos::Start(10)), SeekPlan::Skip(10));
    assert_eq!(r.reader_mut().len(), 3);
    assert_eq!(after_skip(10, true).unwrap(), 10);
    assert_eq!(after_skip(1000, false).unwrap_err().kind(), IoErrorKind::UnexpectedEof);
}

#[test]
fn util_most_recent_and_matching() {
    assert_eq!(Util::most_recent(&[]), None);
    assert_eq!(Util::most_recent(&[3, 9, 2, 9, 1]), Some(3));
    let re = Re::new(r"\.log$").unwrap();
    let files = vec!["/var/log/a.log".to_string(), "/var/log/b.txt".to_string(), "/var/log/c.log".to_string()];
    assert_eq!(Util::matching(&files, &re), vec!["/var/log/a.log", "/var/log/c.log"]);
}

#[test]
fn errors_and_exit_codes() {
    let e = AppError::new(AppCustomErrorKind::NotAFile, "a dir");
    assert!(matches!(e, AppError::App { err: AppCustomErrorKind::NotAFile, ref msg } if msg == "a dir"));
    assert_eq!(e.get_ioerror(), None);
    assert_eq!(AppExitCode::CONFIG_ERROR.code(), 101);
    assert_eq!(AppExitCode::CONFIG_IO_ERROR.code(), 109);
}

#[test]
fn text_helpers() {
    assert_eq!(lines_of("a\r\nb\n\nc"), vec!["a", "b", "", "c"]);
    assert_eq!(lines_of(""), Vec::<String>::new());
    assert_eq!(u64_to_decimal(0), "0");
    assert_eq!(u64_to_decimal(18446744073709551615), "18446744073709551615");
}

#[test]
fn table_keys_stay_unique() {
    let mut t: Table<u64> = Table::new();
    assert_eq!(t.insert("a".to_string(), 1), None);
    assert_eq!(t.insert("b".to_string(), 2), None);
    // read after write, the other key untouched
    assert_eq!(t.insert("a".to_string(), 3), Some(1));
    assert_eq!(t.get("a"), Some(&3));
    assert_eq!(t.get("b"), Some(&2));
    assert_eq!(t.len(), 2);
    *t.or_insert("b", 9) += 10;
    *t.or_insert("c", 7) += 1;
    assert_eq!(t.get("b"), Some(&12));
    assert_eq!(t.get("c"), Some(&8));
    assert_eq!(t.len(), 3);
    assert_eq!(t.remove("a"), Some(3));
    assert_eq!(t.remove("a"), None);
    t.retain_marked(&vec![false, true]);
    assert_eq!(t.len(), 1);
    assert_eq!(t.key_at(0), "c");
    let c = t.clone();
    assert_eq!(c.len(), 1);
    assert_eq!(c.get("c"), Some(&8));
    assert!(!c.contains_key("b"));
}

struct Lines(Vec<&'static str>);

impl ClfBufRead for Lines {
    fn read_line(&mut self, buf: &mut String) -> Result<usize, AppError> {
        if self.0.is_empty() {
            return Ok(0);
        }
        let l = self.0.remove(0);
        buf.push_str(l);
        Ok(l.len())
    }
}

#[test]
fn bufreader_counts_lines_read() {
    let mut r = ClfBufReader::new(Lines(vec!["abc\n", "de\n"]));
    let mut buf = String::new();
    assert_eq!(r.read_line(&mut buf).unwrap(), 4);
    assert_eq!(r.read_line(&mut buf).unwrap(), 3);
    assert_eq!(r.read_line(&mut buf).unwrap(), 0);
    assert_eq!(buf, "abc\nde\n");
    assert_eq!(r.seek_plan(SeekPos::Current(0)), SeekPlan::At(7));
}

#[test]
fn cli_max_logsize_in_mb() {
    let args = |m: &str| CliArgs {
        config: "/etc/clf.yml".to_string(),
        log: None,
        delete_snapshot: false,
        syntax_check: false,
        log_level: None,
        max_logsize: Some(m.to_string()),
        show_options: false,
        show_rendered: false,
        nagios_version: None,
        no_callback: false,
        snapshot: None,
        context: None,
        vars: None,
        overwrite_log: false,
    };
    assert_eq!(CliOptions::from_args(args("10"), "/tmp/clf.log".to_string()).max_logger_size, 10485760);
    assert_eq!(CliOptions::from_args(args("18446744073709551615"), "/tmp/clf.log".to_string()).max_logger_size, u64::MAX);
}
