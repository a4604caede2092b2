use clf::archive::LogArchive;
use clf::callback::{Callback, CallbackType};
use clf::config::{fill_logdef, Config, GlobalOptions, LogFileDef, LogFileFormat, LogSource, PathList, Script, Search, Tag};
use clf::error::{AppError, IoError, IoErrorKind};
use clf::nagios::NagiosError;
use clf::options::SearchOptions;
use clf::pattern::{Pattern, PatternSet, PatternType, Re, RegexVec};
use clf::table::Table;

#[test]
fn test_canonicalize() {
    let script = Script {
        path: "foo".to_string(),
        args: None,
        timeout: 0,
    };
    let path_list = "/usr:/dev:/usr/lib:/usr/bin:/bin";
    let pathbuf_list: Vec<String> = path_list.split(":").map(|p| p.to_string()).collect();
    let candidates = script.candidates(&pathbuf_list);
    let is_file = vec![false; candidates.len()];
    let canonical = vec![Err(IoError::new(IoErrorKind::NotFound, "No such file or directory")); candidates.len()];
    assert_eq!(
        script.canonicalize(&pathbuf_list, &is_file, &canonical).unwrap_err().kind(),
        IoErrorKind::NotFound
    );
}

#[test]
fn script_candidates() {
    let script = Script { path: "gzip".to_string(), args: None, timeout: 0 };
    let list = vec!["/usr".to_string(), "/bin/".to_string(), "".to_string()];
    assert_eq!(script.candidates(&list), vec!["/usr/gzip", "/bin/gzip", "gzip", "gzip"]);
    let canonical = vec![
        Err(IoError::new(IoErrorKind::NotFound, "No such file or directory")),
        Ok("/usr/bin/gzip".to_string()),
        Ok("/usr/bin/gzip".to_string()),
        Err(IoError::new(IoErrorKind::NotFound, "No such file or directory")),
    ];
    assert_eq!(script.canonicalize(&list, &[false, true, true, false], &canonical).unwrap(), "/usr/bin/gzip");
    let denied = vec![
        Err(IoError::new(IoErrorKind::NotFound, "x")),
        Err(IoError::new(IoErrorKind::PermissionDenied, "denied")),
        Ok("/bin/gzip".to_string()),
        Ok("gzip".to_string()),
    ];
    assert_eq!(
        script.canonicalize(&list, &[false, true, true, false], &denied).unwrap_err().kind(),
        IoErrorKind::PermissionDenied
    );

    let abs = Script { path: "/bin/gzip".to_string(), args: None, timeout: 0 };
    assert_eq!(abs.candidates(&list), vec!["/bin/gzip"]);
}

#[test]
fn pathlist_from() {
    let p = PathList::from("/usr/sbin:/usr/bin::/bin".to_string());
    assert_eq!(p.0, vec!["/usr/sbin", "/usr/bin", "", "/bin"]);
}

#[test]
fn command_list_files_shell() {}

fn global() -> GlobalOptions {
    GlobalOptions {
        path: "/usr/foo1".to_string(),
        output_dir: "/usr/foo2".to_string(),
        snapshot_file: None,
        snapshot_retention: 5,
        user_vars: None,
        global_vars: Table::new(),
    }
}

#[test]
fn global_extra_vars() {
    let mut g = global();
    assert_eq!(g.path(), "/usr/foo1");
    g.insert_extra_vars(&Some(vec![
        "MY_VAR1:var1".to_string(),
        "bad".to_string(),
        "a:b:c".to_string(),
        "MY_VAR2:var2".to_string(),
    ]));
    assert_eq!(g.global_vars.len(), 2);
    assert_eq!(g.global_vars.get("CLF_MY_VAR1").unwrap(), "var1");
    assert_eq!(g.global_vars.get("CLF_MY_VAR2").unwrap(), "var2");
    g.insert_extra_vars(&None);
    assert_eq!(g.global_vars.len(), 2);
}

#[test]
fn global_process_env() {
    let mut g = global();
    g.insert_process_env("/etc/clf.yml", "root", "host1", "Linux");
    assert_eq!(g.global_vars.get("CLF_CONFIG_FILE").unwrap(), "/etc/clf.yml");
    assert_eq!(g.global_vars.get("CLF_USER").unwrap(), "root");
    assert_eq!(g.global_vars.get("CLF_HOSTNAME").unwrap(), "host1");
    assert_eq!(g.global_vars.get("CLF_PLATFORM").unwrap(), "Linux");
}

fn tag(name: &str) -> Tag {
    Tag {
        name: name.to_string(),
        process: Tag::default_process(),
        options: SearchOptions::try_from("runcallback".to_string()).unwrap(),
        callback: Some(Callback {
            callback: CallbackType::Script(Some("tests/scripts/echovars.py".to_string())),
            args: Some(vec!["arg1".to_string(), "arg2".to_string(), "arg3".to_string()]),
            timeout: Callback::default_timeout(),
        }),
        patterns: PatternSet {
            critical: None,
            warning: Some(Pattern { regexes: RegexVec::try_from(vec!["error".to_string()]).unwrap(), exceptions: None }),
            ok: None,
        },
    }
}

#[test]
fn search() {
    let search = Search {
        logfile: LogFileDef {
            path: LogSource::LogFile("/var/log/kern.log".to_string()),
            format: LogFileFormat::default(),
            exclude: None,
            archive: None,
            logfilemissing: NagiosError::default(),
        },
        tags: vec![tag("error"), tag("other")],
    };
    assert_eq!(search.logfile(), "/var/log/kern.log");
    assert_eq!(search.tag_names(), vec!["error", "other"]);
    assert!(search.logfile.path.is_path());
    assert!(search.logfile.path.is_logfile());
    assert_eq!(search.logfile.format, LogFileFormat::plain);
    assert_eq!(search.logfile.path.to_string(), "/var/log/kern.log");
    assert!(LogSource::default().is_path());
    assert_eq!(LogSource::default().to_string(), "");

    let t = &search.tags[0];
    assert_eq!(t.name(), "error");
    assert!(t.process());
    assert!(t.callback().is_some());
    assert_eq!(t.is_match("an error here").unwrap().0, PatternType::warning);
    assert!(t.is_match("all good").is_none());

    let other = search.on_logfile("/var/log/syslog");
    assert_eq!(other.logfile(), "/var/log/syslog");
    assert_eq!(other.tags.len(), 2);
}

#[test]
fn logfiledef_list() {
    let def = LogFileDef {
        path: LogSource::LogList(vec!["find".to_string(), "/var/log".to_string()]),
        format: LogFileFormat::json,
        exclude: None,
        archive: Some(LogArchive { dir: None, extension: Some("xz".to_string()), pattern: None }),
        logfilemissing: NagiosError::CRITICAL,
    };
    assert_eq!(def.list(), &vec!["find".to_string(), "/var/log".to_string()]);
    assert!(!def.path.is_path());
}

#[test]
fn logfiledef_archive_path() {
    let mut def = LogFileDef {
        path: LogSource::LogFile("/var/log/syslog".to_string()),
        format: LogFileFormat::plain,
        exclude: None,
        archive: None,
        logfilemissing: NagiosError::UNKNOWN,
    };
    assert_eq!(def.archive_path().unwrap(), "/var/log/syslog.1");
    def.archive = Some(LogArchive { dir: Some("/tmp".to_string()), extension: Some("gz".to_string()), pattern: None });
    assert_eq!(def.archive_path().unwrap(), "/tmp/syslog.gz");
}

#[test]
fn script_replace_args() {
    let script = Script {
        path: "gzip".to_string(),
        args: Some(vec!["address=$hw".to_string(), "id=$id".to_string(), "ok".to_string()]),
        timeout: 0,
    };
    let line = ">>> wlan0: authenticate with FF:FA:FB:FC:FD:FE";
    let re = Re::new(r"(?P<id>\w+): authenticate with (?P<hw>[A-Z:]+)").unwrap();
    let replaced = script.replace_args(&re, line);
    assert!(replaced.is_some());
    assert_eq!(replaced.unwrap(), &["address=FF:FA:FB:FC:FD:FE", "id=wlan0", "ok"]);

    // no match, no group of its own, or no arguments: nothing to replace
    assert!(script.replace_args(&re, "nothing here").is_none());
    let bare = Re::new(r"authenticate").unwrap();
    assert!(script.replace_args(&bare, line).is_none());
    let no_args = Script { path: "x".to_string(), args: None, timeout: 0 };
    assert!(no_args.replace_args(&re, line).is_none());
}

fn search_on(path: LogSource, tags: Vec<Tag>) -> Search {
    Search {
        logfile: LogFileDef {
            path,
            format: LogFileFormat::plain,
            exclude: Some(Re::new("^#").unwrap()),
            archive: None,
            logfilemissing: NagiosError::WARNING,
        },
        tags,
    }
}

#[test]
fn fill_logdef_expands_lists() {
    let searches = vec![
        search_on(LogSource::LogList(vec!["ls".to_string()]), vec![tag("listed")]),
        search_on(LogSource::LogFile("/var/log/a.log".to_string()), vec![tag("single")]),
        search_on(LogSource::LogCommand("ls /tmp".to_string()), vec![tag("cmd"), tag("cmd2")]),
    ];
    let lists = vec![
        Ok(vec!["/tmp/x.log".to_string(), "/tmp/y.log".to_string()]),
        Ok(vec!["ignored".to_string()]),
        Ok(vec!["/tmp/z.log".to_string()]),
    ];
    let out = fill_logdef(&searches, &lists).unwrap();
    let paths: Vec<&str> = out.iter().map(|s| s.logfile().as_str()).collect();
    assert_eq!(paths, vec!["/var/log/a.log", "/tmp/x.log", "/tmp/y.log", "/tmp/z.log"]);
    assert_eq!(out[0].tag_names(), vec!["single"]);
    assert_eq!(out[1].tag_names(), vec!["listed"]);
    assert_eq!(out[2].tag_names(), vec!["listed"]);
    assert_eq!(out[3].tag_names(), vec!["cmd", "cmd2"]);
    // the copies keep the settings and the patterns of their list
    assert_eq!(out[1].logfile.logfilemissing, NagiosError::WARNING);
    assert_eq!(out[1].logfile.exclude.as_ref().unwrap().as_str(), "^#");
    assert_eq!(out[1].tags[0].is_match("an error here").unwrap().0, PatternType::warning);

    // the first command that failed gives its error
    let failed = vec![
        Ok(vec![]),
        Ok(vec![]),
        Err(AppError::Parse("no such command".to_string())),
    ];
    match fill_logdef(&searches, &failed) {
        Err(AppError::Parse(m)) => assert_eq!(m, "no such command"),
        _ => panic!("the failed command is reported"),
    }
}

#[test]
fn config_getters() {
    let mut g = global();
    let mut user = Table::new();
    user.insert("first_name".to_string(), "Al".to_string());
    user.insert("last_name".to_string(), "Pacino".to_string());
    g.user_vars = Some(user);
    let mut config = Config { global: g, searches: vec![] };
    assert_eq!(config.get_global().path(), "/usr/foo1");
    assert_eq!(config.get_snapshot_retention(), 5);
    assert_eq!(config.snapshot_retention(), 5);
    let copy = config.get_user_vars().unwrap();
    assert_eq!(copy.len(), 2);
    assert_eq!(copy.get("first_name").unwrap(), "Al");
    assert_eq!(copy.key_at(1), "last_name");
    assert!(config.snapshot_file().is_none());
    config.set_snapshot_file("/tmp/snap.json");
    assert_eq!(config.snapshot_file().as_deref(), Some("/tmp/snap.json"));
    assert!(Tag::process_default());
}
