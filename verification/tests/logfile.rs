use clf::error::{AppCustomErrorKind, AppError, IoError, IoErrorKind};
use clf::config::Tag;
use clf::logfile::{rotated, LogFile, RunData};
use clf::options::SearchOptions;
use clf::pattern::PatternSet;
use clf::snapshot::{retain_recent, Snapshot};

fn logfile(path: &str) -> LogFile {
    LogFile::new(path, true, Ok(path.to_string()), Ok((1, 1))).unwrap()
}

#[test]
fn logfile_new() {
    let mut lf_ok = LogFile::new("/usr/bin/zip", true, Ok("/usr/bin/zip".to_string()), Ok((1, 1))).unwrap();
    assert_eq!(lf_ok.path.as_str(), "/usr/bin/zip");
    assert!(lf_ok.extension.is_none());

    lf_ok = LogFile::new("/etc/hosts.allow", true, Ok("/etc/hosts.allow".to_string()), Ok((1, 1))).unwrap();
    assert_eq!(lf_ok.path.as_str(), "/etc/hosts.allow");
    assert_eq!(lf_ok.extension.unwrap(), "allow");
}

#[test]
fn logfile_new_attributes() {
    let lf = LogFile::new("/var/log/kern.log.gz", true, Ok("/data/log/kern.log.gz".to_string()), Ok((12, 34))).unwrap();
    assert_eq!(lf.path, "/data/log/kern.log.gz");
    assert_eq!(lf.directory.as_deref(), Some("/var/log"));
    assert_eq!(lf.extension.as_deref(), Some("gz"));
    assert!(lf.compressed);
    assert_eq!(lf.inode, 12);
    assert_eq!(lf.dev, 34);
    assert_eq!(lf.rundata.len(), 0);

    let lf = LogFile::new("/var/log/syslog.1", true, Ok("/var/log/syslog.1".to_string()), Ok((1, 1))).unwrap();
    assert!(!lf.compressed);
}

#[test]
fn test_new() {
    let mut lf_ok = LogFile::new("/usr/bin/zip", true, Ok("/usr/bin/zip".to_string()), Ok((1, 1))).unwrap();
    assert_eq!(lf_ok.path.as_str(), "/usr/bin/zip");
    assert!(lf_ok.extension.is_none());

    lf_ok = LogFile::new("/etc/hosts.allow", true, Ok("/etc/hosts.allow".to_string()), Ok((1, 1))).unwrap();
    assert_eq!(lf_ok.path.as_str(), "/etc/hosts.allow");
    assert_eq!(lf_ok.extension.unwrap(), "allow");

    // file not found, not a file, no root: none of them is usable
    for (path, canon) in [
        ("/usr/bin/foo", Err(AppError::Io(IoError::new(IoErrorKind::NotFound, "not found")))),
        ("/usr/bin", Ok("/usr/bin".to_string())),
        ("usr/bin/foo", Err(AppError::Io(IoError::new(IoErrorKind::NotFound, "not found")))),
    ] {
        match LogFile::new(path, false, canon, Ok((1, 1))).unwrap_err() {
            AppError::App { err: e, msg } => {
                assert_eq!(e, AppCustomErrorKind::FileNotUsable);
                assert_eq!(msg, format!("file {:?} is not usable", path));
            }
            _ => panic!("error not expected here!"),
        };
    }
}

#[test]
fn logfile_new_errors() {
    let e = LogFile::new("/usr/bin/foo", true, Err(AppError::Io(IoError::new(IoErrorKind::NotFound, "not found"))),
        Ok((1, 1)),
    )
    .unwrap_err();
    assert_eq!(e.get_ioerror(), Some(IoErrorKind::NotFound));

    let e = LogFile::new("/usr/bin/zip", true, Ok("/usr/bin/zip".to_string()),
        Err(AppError::Io(IoError::new(IoErrorKind::PermissionDenied, "denied"))),
    )
    .unwrap_err();
    assert_eq!(e.get_ioerror(), Some(IoErrorKind::PermissionDenied));
}

#[test]
fn logfile_or_insert() {
    let mut logfile1 = logfile("/usr/bin/zip");
    logfile1.or_insert("tag1").last_offset = 1000;
    logfile1.or_insert("tag2").last_offset = 1000;

    {
        let rundata1 = logfile1.or_insert("another_tag");
        assert_eq!(rundata1.tag_name, "another_tag");
        assert_eq!(rundata1.last_offset, 0);
    }

    let mut tags = logfile1.tags();
    tags.sort();
    assert_eq!(tags, vec!["another_tag", "tag1", "tag2"]);

    assert!(logfile1.contains_key("tag1"));
    assert!(!logfile1.contains_key("tag3"));
    assert_eq!(logfile1.or_insert("tag1").last_offset, 1000);
}

#[test]
fn logfile_same() {
    let a = logfile("/usr/bin/zip");
    let b = logfile("/usr/bin/zip");
    let c = logfile("/usr/bin/unzip");
    assert!(a.same(&b));
    assert!(!a.same(&c));
}

#[test]
fn rundata_getters() {
    let r = RunData::new("tag1");
    assert_eq!(r.get_tagname(), "tag1");
    assert_eq!(r.get_lastrun(), 0);
}

#[test]
fn snapshot_or_insert() {
    let mut data = Snapshot::new();
    data.or_insert("/usr/bin/zip", Ok(logfile("/usr/bin/zip"))).unwrap();
    data.or_insert("/etc/hosts.allow", Ok(logfile("/etc/hosts.allow"))).unwrap();
    assert!(data.contains_key("/usr/bin/zip"));
    assert!(data.contains_key("/etc/hosts.allow"));
    assert_eq!(data.len(), 2);

    let _logfile = data.or_insert("/bin/gzip", Ok(logfile("/bin/gzip")));

    // snapshot has now 3 logfiles
    assert!(data.contains_key("/bin/gzip"));
    assert_eq!(data.len(), 3);

    let _logfile = data.or_insert("/usr/bin/zip", Ok(logfile("/usr/bin/other")));
    assert_eq!(data.len(), 3);
    assert_eq!(data.or_insert("/usr/bin/zip", Ok(logfile("/x"))).unwrap().path, "/usr/bin/zip");
}

#[test]
fn snapshot_or_insert_error_and_remove() {
    let mut data = Snapshot::new();
    let e = data.or_insert("/nowhere", Err(AppError::Io(IoError::new(IoErrorKind::NotFound, "gone"))));
    assert!(e.is_err());
    assert_eq!(data.len(), 0);

    data.or_insert("/a", Ok(logfile("/a"))).unwrap();
    assert!(data.remove("/a").is_some());
    assert!(data.remove("/a").is_none());
    assert!(!data.contains_key("/a"));
    assert_eq!(data.len(), 0);
}

#[test]
fn logfile_or_insert_twice() {
    let mut lf = logfile("/var/log/syslog");
    lf.or_insert("tag1").last_offset = 1000;
    let before = lf.tags().len();
    let r = lf.or_insert("tag1");
    assert_eq!(r.last_offset, 1000);
    assert_eq!(lf.tags().len(), before);
    let _ = lf.or_insert("tag2");
    let _ = lf.or_insert("tag2");
    assert_eq!(lf.tags(), vec!["tag1", "tag2"]);
}

#[test]
fn snapshot_retention_law_example() {
    let mut data = Snapshot::new();
    {
        let lf = data.or_insert("/var/log/syslog", Ok(logfile("/var/log/syslog"))).unwrap();
        lf.or_insert("old").last_run = 1000;
        lf.or_insert("recent").last_run = 9000;
        lf.or_insert("edge").last_run = 5000;
    }
    // now = 10000, retention = 5000: a tag stays when 10000 - last_run < 5000
    data.apply_retention(10000, 5000);
    let lf = data.or_insert("/var/log/syslog", Ok(logfile("/x"))).unwrap();
    assert_eq!(lf.tags(), vec!["recent"]);

    let mut one = logfile("/tmp/f");
    one.or_insert("t").last_run = 10;
    retain_recent(&mut one, 10, 1);
    assert_eq!(one.tags(), vec!["t"]);
}

fn tag(name: &str, options: &str) -> Tag {
    Tag {
        name: name.to_string(),
        process: true,
        options: SearchOptions::try_from(options.to_string()).unwrap(),
        callback: None,
        patterns: PatternSet { critical: None, warning: None, ok: None },
    }
}

#[test]
fn logfile_rotation() {
    let stored = LogFile::new("/var/log/syslog", true, Ok("/var/log/syslog".to_string()), Ok((10, 1))).unwrap();
    let same = LogFile::new("/var/log/syslog", true, Ok("/var/log/syslog".to_string()), Ok((10, 1))).unwrap();
    let current = LogFile::new("/var/log/syslog", true, Ok("/var/log/syslog".to_string()), Ok((11, 1))).unwrap();
    assert!(!rotated(&stored, &same));
    assert!(rotated(&stored, &current));

    let mut lf = stored;
    {
        let r = lf.or_insert("plain");
        r.last_offset = 500;
        r.last_line = 50;
        r.last_run = 77;
        r.warning_hits = 3;
    }
    {
        let r = lf.or_insert("saving");
        r.last_offset = 500;
        r.last_line = 50;
        r.last_run = 77;
    }
    lf.or_insert("other").last_offset = 42;

    // the archive is read on from where the logfile's search stopped
    let archive = LogFile::new("/var/log/syslog.1", true, Ok("/var/log/syslog.1".to_string()), Ok((10, 1))).unwrap();
    let mut archived = lf.for_archive(archive);
    assert_eq!(archived.path, "/var/log/syslog.1");
    assert_eq!(archived.or_insert("saving").last_offset, 500);
    {
        let a = archived.or_insert("saving");
        a.last_offset = 900;
        a.warning_hits = 2;
        a.counters.critical_count = 7;
    }

    let tags = vec![tag("plain", "runcallback"), tag("saving", "savethresholds")];
    lf.after_rotation(&tags, &archived, &current);
    assert_eq!((lf.inode, lf.dev), (11, 1));
    let plain = lf.or_insert("plain");
    assert_eq!((plain.last_offset, plain.last_line, plain.last_run, plain.warning_hits), (0, 0, 0, 0));
    let saving = lf.or_insert("saving");
    assert_eq!((saving.last_offset, saving.last_line, saving.last_run), (0, 0, 77));
    assert_eq!(saving.warning_hits, 2);
    assert_eq!(saving.counters.critical_count, 7);
    assert_eq!(lf.or_insert("other").last_offset, 42);
    assert_eq!(lf.tags(), vec!["plain", "saving", "other"]);
}
