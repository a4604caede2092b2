use clf::archive::LogArchive;

#[test]
fn rotated_path() {
    let mut p = "/var/log/kern.log";
    assert_eq!(LogArchive::rotated_path(p), "/var/log/kern.log.1");

    p = "/var/log/syslog";
    assert_eq!(LogArchive::rotated_path(p), "/var/log/syslog.1");
}

#[test]
fn default_path() {
    let mut p = "/var/log/kern.log";
    assert_eq!(LogArchive::default_path(p), "/var/log/kern.log.1");

    p = "/var/log/syslog";
    assert_eq!(LogArchive::default_path(p), "/var/log/syslog.1");
}

#[test]
fn config_archived_path() {
    let rot = LogArchive {
        dir: Some(String::from("/tmp")),
        extension: Some(String::from("gz")),
        pattern: None,
    };

    let path = rot.archived_path("/var/log/kern.log");
    assert!(path.is_some());
    assert_eq!(path.unwrap(), "/tmp/kern.log.gz");
}

#[test]
fn archive_archived_path() {
    let p = "/var/log/kern.log";

    let archive = LogArchive { dir: None, extension: None, pattern: None };
    assert_eq!(archive.archived_path(p).unwrap(), "/var/log/kern.log.1");

    let archive = LogArchive { dir: Some("/tmp".to_string()), extension: None, pattern: None };
    assert_eq!(archive.archived_path(p).unwrap(), "/tmp/kern.log.1");

    let archive = LogArchive { dir: None, extension: Some("gz".to_string()), pattern: None };
    assert_eq!(archive.archived_path(p).unwrap(), "/var/log/kern.log.gz");

    let archive = LogArchive { dir: Some("/tmp".to_string()), extension: Some("gz".to_string()), pattern: None };
    assert_eq!(archive.archived_path(p).unwrap(), "/tmp/kern.log.gz");
}

#[test]
fn archived_path_without_file_name() {
    let archive = LogArchive { dir: Some("/tmp".to_string()), extension: None, pattern: None };
    assert!(archive.archived_path("/var/log/..").is_none());
    let archive = LogArchive { dir: None, extension: None, pattern: None };
    assert!(archive.archived_path("/").is_none());
}
