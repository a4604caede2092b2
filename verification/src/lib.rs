//! Log file checker library: configuration options, pattern matching, variables handed to
//! callbacks, run-time data kept between runs, and the Nagios plugin output.
pub mod error;
pub mod text;
pub mod options;
pub mod table;
pub mod nagios;
pub mod logfile;
pub mod snapshot;
pub mod pattern;
pub mod variables;
pub mod vars;
pub mod lookup;
pub mod archive;
pub mod callback;
pub mod config;
pub mod script;
pub mod cli;
pub mod bufreader;
pub mod util;
