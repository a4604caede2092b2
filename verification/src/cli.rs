//! The options of the command line, as they follow from the arguments given.
use vstd::prelude::*;

use crate::nagios::NagiosVersion;
use crate::text::{chars_of, parse_bounded, parse_unsigned_chars, str_is};

verus! {

/// The minimum level of the messages logged by the program.
#[derive(Debug, Clone, Copy, PartialEq, Eq, Structural)]
pub enum LogLevel {
    Off,
    Error,
    Warn,
    Info,
    Debug,
    Trace,
}

/// How logfiles are read: with the callbacks run, or only to print the matching lines.
#[derive(Debug, Clone, Copy, PartialEq, Eq, Structural)]
pub enum ReaderCallType {
    FullReaderCall,
    BypassReaderCall,
}

/// The arguments of the command line, as given.
#[derive(Debug, Clone)]
pub struct CliArgs {
    /// The configuration file, canonicalized.
    pub config: String,
    pub log: Option<String>,
    pub delete_snapshot: bool,
    pub syntax_check: bool,
    pub log_level: Option<String>,
    pub max_logsize: Option<String>,
    pub show_options: bool,
    pub show_rendered: bool,
    pub nagios_version: Option<String>,
    pub no_callback: bool,
    pub snapshot: Option<String>,
    pub context: Option<String>,
    pub vars: Option<Vec<String>>,
    pub overwrite_log: bool,
}

/// The options of the program.
#[derive(Debug, Clone)]
pub struct CliOptions {
    pub config_file: String,
    pub clf_logger: String,
    pub delete_snapfile: bool,
    pub check_conf: bool,
    pub logger_level: LogLevel,
    pub max_logger_size: u64,
    pub show_options: bool,
    pub nagios_version: NagiosVersion,
    pub snapshot_file: Option<String>,
    pub reader_type: ReaderCallType,
    pub tera_context: Option<String>,
    pub extra_vars: Option<Vec<String>>,
    pub show_rendered: bool,
    pub reset_log: bool,
}

/// The log level that a name gives; `Info` when none is given or the name is not one.
pub open spec fn spec_log_level(v: Option<Seq<char>>) -> LogLevel {
    match v {
        Some(s) => if s == "Off"@ {
            LogLevel::Off
        } else if s == "Error"@ {
            LogLevel::Error
        } else if s == "Warn"@ {
            LogLevel::Warn
        } else if s == "Debug"@ {
            LogLevel::Debug
        } else if s == "Trace"@ {
            LogLevel::Trace
        } else {
            LogLevel::Info
        },
        None => LogLevel::Info,
    }
}

/// The maximum log size in bytes: the value given in MB, when it reads as an integer (a size
/// beyond what a `u64` holds is cut to `u64::MAX`), or 50 MB.
pub open spec fn spec_max_logsize(v: Option<Seq<char>>) -> u64 {
    match v {
        Some(s) => match parse_bounded(s, u64::MAX as nat) {
            Some(n) => if n * 1048576 <= u64::MAX {
                (n * 1048576) as u64
            } else {
                u64::MAX
            },
            None => 52428800,
        },
        None => 52428800,
    }
}

/// The contents of an optional string.
pub open spec fn opt_str(o: Option<String>) -> Option<Seq<char>> {
    match o {
        Some(s) => Some(s@),
        None => None,
    }
}

impl CliOptions {
    /// The options that the arguments give. The logger defaults to `default_logger`.
    pub fn from_args(args: CliArgs, default_logger: String) -> (r: CliOptions)
        requires
            args.nagios_version matches Some(v) ==> (v@ == "2"@ || v@ == "3"@),
        ensures
            r.config_file@ == args.config@,
            r.clf_logger@ == match args.log {
                Some(l) => l@,
                None => default_logger@,
            },
            r.delete_snapfile == args.delete_snapshot,
            r.check_conf == args.syntax_check,
            r.logger_level == spec_log_level(opt_str(args.log_level)),
            r.max_logger_size == spec_max_logsize(opt_str(args.max_logsize)),
            r.show_options == args.show_options,
            r.nagios_version == match args.nagios_version {
                Some(v) => if v@ == "2"@ {
                    NagiosVersion::NagiosNrpe2
                } else {
                    NagiosVersion::NagiosNrpe3
                },
                None => NagiosVersion::NagiosNrpe3,
            },
            opt_str(r.snapshot_file) == opt_str(args.snapshot),
            r.reader_type == if args.no_callback {
                ReaderCallType::BypassReaderCall
            } else {
                ReaderCallType::FullReaderCall
            },
            opt_str(r.tera_context) == opt_str(args.context),
            r.extra_vars == args.vars,
            r.show_rendered == args.show_rendered,
            r.reset_log == args.overwrite_log,
    {
        let logger_level = match &args.log_level {
            Some(s) => {
                let l = s.as_str();
                if str_is(l, "Off") {
                    LogLevel::Off
                } else if str_is(l, "Error") {
                    LogLevel::Error
                } else if str_is(l, "Warn") {
                    LogLevel::Warn
                } else if str_is(l, "Debug") {
                    LogLevel::Debug
                } else if str_is(l, "Trace") {
                    LogLevel::Trace
                } else {
                    LogLevel::Info
                }
            },
            None => LogLevel::Info,
        };
        let max_logger_size = match &args.max_logsize {
            Some(s) => {
                let c = chars_of(s.as_str());
                match parse_unsigned_chars(c.as_slice(), u64::MAX) {
                    Some(n) => if n <= u64::MAX / 1048576 {
                        n * 1048576
                    } else {
                        u64::MAX
                    },
                    None => 52428800,
                }
            },
            None => 52428800,
        };
        let nagios_version = match &args.nagios_version {
            Some(v) => if str_is(v.as_str(), "2") {
                NagiosVersion::NagiosNrpe2
            } else {
                NagiosVersion::NagiosNrpe3
            },
            None => NagiosVersion::NagiosNrpe3,
        };
        let clf_logger = match args.log {
            Some(l) => l,
            None => default_logger,
        };
        CliOptions {
            config_file: args.config,
            clf_logger,
            delete_snapfile: args.delete_snapshot,
            check_conf: args.syntax_check,
            logger_level,
            max_logger_size,
            show_options: args.show_options,
            nagios_version,
            snapshot_file: args.snapshot,
            reader_type: if args.no_callback {
                ReaderCallType::BypassReaderCall
            } else {
                ReaderCallType::FullReaderCall
            },
            tera_context: args.context,
            extra_vars: args.vars,
            show_rendered: args.show_rendered,
            reset_log: args.overwrite_log,
        }
    }
}

} // verus!
