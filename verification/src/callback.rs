//! What is done on a match: a script is spawned with environment variables, or JSON data is
//! sent to a TCP or UNIX domain socket. The process and socket work is the caller's; this
//! module decides what the script's environment is, what a payload holds and how it is framed,
//! and what becomes of a started process at the end.
use vstd::prelude::*;

use crate::error::AppError;
use crate::table::{str_entries, Table};
use crate::text::{lines, lines_of, owned};
use crate::vars::{var_entries, VarType, Vars};
use vstd::string::StringSliceAdditionalSpecFns;
use vstd::utf8::{decode_utf8, valid_utf8};

verus! {

/// Default timeout, in seconds, to wait for a callback or a command: two hours.
pub fn default_timeout() -> (r: u64)
    ensures
        r == 7200,
{
    2 * 3600
}

/// A callback is either a script, or a TCP socket, or a UNIX domain socket.
#[derive(Debug, PartialEq, Eq)]
pub enum CallbackType {
    /// The path of a script.
    Script(Option<String>),
    /// An `address:port`.
    Tcp(Option<String>),
    /// The path of a UNIX domain socket.
    Domain(Option<String>),
}

/// The class of a callback.
#[allow(non_camel_case_types)]
#[derive(Debug, Clone, Copy, PartialEq, Eq, Structural)]
pub enum CallbackClass {
    script,
    tcp,
}

impl Clone for CallbackType {
    fn clone(&self) -> (r: CallbackType)
        ensures
            r == *self,
    {
        match self {
            CallbackType::Script(p) => CallbackType::Script(p.clone()),
            CallbackType::Tcp(a) => CallbackType::Tcp(a.clone()),
            CallbackType::Domain(p) => CallbackType::Domain(p.clone()),
        }
    }
}

/// The text of optional strings.
pub open spec fn opt_strings(v: Option<Vec<String>>) -> Option<Seq<Seq<char>>> {
    match v {
        Some(v) => Some(v@.map_values(|s: String| s@)),
        None => None,
    }
}

/// A callback, with its arguments and timeout.
#[derive(Debug)]
pub struct Callback {
    /// What is called.
    pub callback: CallbackType,
    /// Its arguments, if any.
    pub args: Option<Vec<String>>,
    /// A timeout in seconds.
    pub timeout: u64,
}

impl Callback {
    /// What is called, with which arguments and timeout.
    pub open spec fn view(&self) -> (CallbackType, Option<Seq<Seq<char>>>, u64) {
        (self.callback, opt_strings(self.args), self.timeout)
    }
}

impl Clone for Callback {
    fn clone(&self) -> (r: Callback)
        ensures
            r.view() == self.view(),
    {
        let args = match &self.args {
            Some(v) => {
                let c = v.clone();
                assert(c@.map_values(|s: String| s@) =~= v@.map_values(|s: String| s@));
                Some(c)
            },
            None => None,
        };
        Callback { callback: self.callback.clone(), args, timeout: self.timeout }
    }
}

/// The text of the runtime variables' values.
pub open spec fn runtime_env(v: Seq<(Seq<char>, VarType<Seq<char>>)>) -> Seq<(Seq<char>, Seq<char>)> {
    v.map_values(
        |p: (Seq<char>, VarType<Seq<char>>)|
            (
                p.0,
                match p.1 {
                    VarType::Str(s) => s,
                    VarType::Int(i) => crate::text::decimal(i as nat),
                },
            ),
    )
}

/// Which parts a JSON payload sent to a socket holds: the arguments and the global variables
/// are sent with the first payload only; the runtime variables with each.
#[derive(Debug, Clone, Copy, PartialEq, Eq, Structural)]
pub struct PayloadParts {
    pub args: bool,
    pub global: bool,
    pub vars: bool,
}

impl Callback {
    /// Default timeout, in seconds.
    pub fn default_timeout() -> (r: u64)
        ensures
            r == 7200,
    {
        default_timeout()
    }

    /// The environment of a script callback, in the order in which it is set: the global
    /// variables, then the runtime variables, then `PATH` when a path is given.
    pub fn script_env(global_vars: &Table<String>, runtime_vars: &Vars, env_path: Option<&str>) -> (r: Vec<(String, String)>)
        ensures
            r@.map_values(|p: (String, String)| (p.0@, p.1@)) == str_entries(global_vars@) + runtime_env(
                runtime_vars.view(),
            ) + match env_path {
                Some(p) => seq![("PATH"@, p@)],
                None => Seq::empty(),
            },
    {
        let mut r: Vec<(String, String)> = Vec::new();
        let ghost g = str_entries(global_vars@);
        let mut i: usize = 0;
        while i < global_vars.len()
            invariant
                i <= global_vars@.len(),
                g == str_entries(global_vars@),
                r@.map_values(|p: (String, String)| (p.0@, p.1@)) == g.take(i as int),
            decreases global_vars@.len() - i,
        {
            let ghost before = r@;
            let k = global_vars.key_at(i).clone();
            let v = global_vars.value_at(i).clone();
            assert(k@ == g[i as int].0 && v@ == g[i as int].1);
            r.push((k, v));
            assert(r@.map_values(|p: (String, String)| (p.0@, p.1@)) =~= before.map_values(
                |p: (String, String)| (p.0@, p.1@),
            ).push((k@, v@)));
            assert(g.take(i + 1) =~= g.take(i as int).push(g[i as int]));
            i = i + 1;
        }
        assert(g.take(global_vars@.len() as int) =~= g);
        let inner = runtime_vars.inner();
        let ghost rt = runtime_env(runtime_vars.view());
        let mut j: usize = 0;
        while j < inner.len()
            invariant
                j <= inner@.len(),
                rt == runtime_env(var_entries(inner@)),
                rt.len() == inner@.len(),
                r@.map_values(|p: (String, String)| (p.0@, p.1@)) == g + rt.take(j as int),
            decreases inner@.len() - j,
        {
            let ghost before = r@;
            let value = inner.value_at(j).to_string();
            let k = inner.key_at(j).clone();
            assert(k@ == rt[j as int].0 && value@ == rt[j as int].1);
            r.push((k, value));
            assert(r@.map_values(|p: (String, String)| (p.0@, p.1@)) =~= before.map_values(
                |p: (String, String)| (p.0@, p.1@),
            ).push((k@, value@)));
            assert(rt.take(j + 1) =~= rt.take(j as int).push(rt[j as int]));
            assert(g + rt.take(j + 1) =~= (g + rt.take(j as int)).push(rt[j as int]));
            j = j + 1;
        }
        assert(rt.take(inner@.len() as int) =~= rt);
        if let Some(p) = env_path {
            let ghost before = r@;
            r.push((owned("PATH"), owned(p)));
            assert(r@.map_values(|p: (String, String)| (p.0@, p.1@)) =~= before.map_values(
                |p: (String, String)| (p.0@, p.1@),
            ).push(("PATH"@, p@)));
        } else {
            assert(g + rt + Seq::<(Seq<char>, Seq<char>)>::empty() =~= g + rt);
        }
        r
    }

    /// Which parts the payload holds: the arguments, when there are some, and the global
    /// variables go with the first payload only; the runtime variables with each one.
    pub fn payload_parts(&self, first_time: bool) -> (r: PayloadParts)
        ensures
            r == (PayloadParts { args: first_time && self.args is Some, global: first_time, vars: true }),
    {
        PayloadParts { args: first_time && self.args.is_some(), global: first_time, vars: true }
    }
}

/// The largest payload sent, in bytes.
pub open spec fn max_payload() -> nat {
    65535
}

/// A payload as it is sent: its size, cut to 65535 bytes, on two bytes in network order, then
/// its bytes up to that size.
pub open spec fn framed(b: Seq<u8>) -> Seq<u8> {
    let n = if b.len() <= max_payload() { b.len() } else { max_payload() };
    seq![(n / 256) as u8, (n % 256) as u8] + b.take(n as int)
}

/// A receiver reads the size on the first two bytes, in network order, then exactly that many
/// bytes: the start of the payload, all of it when it fits in 65535 bytes.
pub proof fn law_frame_length(b: Seq<u8>)
    ensures
        framed(b).len() >= 2,
        framed(b)[0] * 256 + framed(b)[1] == framed(b).len() - 2,
        framed(b).subrange(2, framed(b).len() as int) == b.take(framed(b).len() - 2),
        b.len() <= max_payload() ==> framed(b).subrange(2, framed(b).len() as int) == b,
{
    let n: int = if b.len() <= max_payload() { b.len() as int } else { max_payload() as int };
    assert(0 <= n <= 65535);
    assert(n / 256 <= 255 && n % 256 <= 255 && (n / 256) * 256 + n % 256 == n) by (nonlinear_arith)
        requires
            0 <= n <= 65535,
    ;
    let f = framed(b);
    assert(f[0] == (n / 256) as u8);
    assert(f[1] == (n % 256) as u8);
    assert(f.subrange(2, f.len() as int) =~= b.take(n));
    if b.len() <= max_payload() {
        assert(b.take(n) =~= b);
    }
}

/// Frames a JSON payload: its size on two bytes in network order, then the payload, cut to
/// 65535 bytes. The cut must fall on a character boundary.
pub fn frame_payload(json: &str) -> (r: Vec<u8>)
    requires
        json.spec_bytes().len() <= max_payload() || vstd::utf8::is_char_boundary(
            json.spec_bytes(),
            max_payload() as int,
        ),
    ensures
        r@ == framed(json.spec_bytes()),
{
    let b = json.as_bytes();
    let n: usize = if b.len() <= 65535 { b.len() } else { 65535 };
    let mut r: Vec<u8> = Vec::new();
    r.push((n / 256) as u8);
    r.push((n % 256) as u8);
    let mut i: usize = 0;
    while i < n
        invariant
            i <= n,
            n <= b@.len(),
            r@ == seq![(n / 256) as u8, (n % 256) as u8] + b@.take(i as int),
        decreases n - i,
    {
        r.push(b[i]);
        i = i + 1;
        assert(r@ =~= seq![(n / 256) as u8, (n % 256) as u8] + b@.take(i as int));
    }
    r
}

/// What becomes of a started process at the end of the run.
#[derive(Debug, Clone, Copy, PartialEq, Eq, Structural)]
pub enum ChildAction {
    /// It has exited already: nothing to do.
    Exited,
    /// Its timeout is over: it is killed.
    Kill,
    /// It is waited for, at most this many seconds, and killed if still running then.
    WaitFor(u64),
}

/// What becomes of a started process, given whether it exited, how many seconds ago it
/// started and its timeout.
pub fn child_action(exited: bool, elapsed: u64, timeout: u64) -> (r: ChildAction)
    ensures
        exited ==> r == ChildAction::Exited,
        !exited && elapsed > timeout ==> r == ChildAction::Kill,
        !exited && elapsed <= timeout ==> r == ChildAction::WaitFor((timeout - elapsed) as u64),
{
    if exited {
        ChildAction::Exited
    } else if elapsed > timeout {
        ChildAction::Kill
    } else {
        ChildAction::WaitFor(timeout - elapsed)
    }
}

/// A command which lists files.
#[derive(Debug, Clone)]
pub struct Cmd {
    /// The command.
    pub path: String,
    /// Its arguments, if any.
    pub args: Option<Vec<String>>,
    /// A timeout in seconds.
    pub timeout: u64,
}

/// The message of the error that `std::str::from_utf8` gives for bytes which are not UTF-8.
pub uninterp spec fn utf8_error_text(b: Seq<u8>) -> Seq<char>;

/// Calls `std::str::from_utf8`: as its documentation says, it succeeds exactly on valid UTF-8,
/// and then gives the characters that the bytes encode; the message of its error is named
/// `utf8_error_text`.
#[verifier::external_body]
fn from_utf8(bytes: &[u8]) -> (r: Result<String, String>)
    ensures
        r is Ok <==> valid_utf8(bytes@),
        r matches Ok(s) ==> s@ == decode_utf8(bytes@),
        r matches Err(m) ==> m@ == utf8_error_text(bytes@),
{
    match std::str::from_utf8(bytes) {
        Ok(s) => Ok(s.to_string()),
        Err(e) => Err(e.to_string()),
    }
}

impl Cmd {
    /// The files that a command lists on its standard output, one per line. Output which is
    /// not UTF-8 is refused.
    pub fn files_of(stdout: &[u8]) -> (r: Result<Vec<String>, AppError>)
        ensures
            r is Ok <==> valid_utf8(stdout@),
            r matches Ok(v) ==> v@.map_values(|s: String| s@) == lines(decode_utf8(stdout@)),
            r matches Err(e) ==> e matches AppError::Utf8Error(m) && m@ == utf8_error_text(stdout@),
    {
        match from_utf8(stdout) {
            Ok(s) => {
                let v = lines_of(s.as_str());
                Ok(v)
            },
            Err(m) => Err(AppError::Utf8Error(m)),
        }
    }
}

} // verus!
