//! The command-line tool's runtime context: output format, credentials, where the
//! device cache and the group definitions live, and the shape of a command's result.
//!
//! Reading the environment and the terminal is done by the tool itself; the values
//! it reads are handed to the functions here.

use vstd::prelude::*;
use crate::transport::{Credentials, CredentialsView};
use crate::text::to_chars;

verus! {

/// Rendered output format.
#[derive(Debug, Clone, Copy, PartialEq, Eq, Structural)]
pub enum OutputFormat {
    Text,
    Json,
}

/// The result of a command: a single rendered blob, or a multi-device blob that
/// carries its own exit code (bulk operations report per-device and never abort).
#[derive(Debug)]
pub enum Output {
    One(String),
    Many { rendered: String, exit_code: i32 },
}

/// Everything a command handler needs at runtime.
#[derive(Debug)]
pub struct Ctx {
    pub format: OutputFormat,
    pub timeout_secs: u64,
    pub credentials: Option<Credentials>,
    pub cache_path: String,
    pub groups_path: String,
    pub yes: bool,
    pub dry_run: bool,
}

/// A value given on the command line or in the environment counts only when it is
/// not empty.
pub open spec fn given(v: Option<Seq<char>>) -> Option<Seq<char>> {
    match v {
        Some(s) => if s.len() > 0 {
            Some(s)
        } else {
            None
        },
        None => None,
    }
}

/// The flag's value when given, else the environment's.
pub open spec fn flag_or_env(flag: Option<Seq<char>>, env: Option<Seq<char>>) -> Option<Seq<char>> {
    match given(flag) {
        Some(s) => Some(s),
        None => given(env),
    }
}

/// The credentials to use: the user defaults to `admin` when only a password is
/// set (Tasmota's web user), and the password to empty when only a user is set.
pub open spec fn credentials_from(
    user: Option<Seq<char>>,
    password: Option<Seq<char>>,
    env_user: Option<Seq<char>>,
    env_password: Option<Seq<char>>,
) -> Option<CredentialsView> {
    match (flag_or_env(user, env_user), flag_or_env(password, env_password)) {
        (None, None) => None,
        (Some(u), Some(p)) => Some(CredentialsView { user: u, password: p }),
        (Some(u), None) => Some(CredentialsView { user: u, password: Seq::empty() }),
        (None, Some(p)) => Some(CredentialsView { user: "admin"@, password: p }),
    }
}

pub open spec fn opt_text(v: Option<String>) -> Option<Seq<char>> {
    match v {
        Some(s) => Some(s@),
        None => None,
    }
}

pub open spec fn opt_creds(v: Option<Credentials>) -> Option<CredentialsView> {
    match v {
        Some(c) => Some(c@),
        None => None,
    }
}

fn given_string(v: Option<String>) -> (r: Option<String>)
    ensures
        opt_text(r) == given(opt_text(v)),
{
    match v {
        Some(s) => if s.as_str().is_empty() {
            None
        } else {
            Some(s)
        },
        None => None,
    }
}

/// Resolves credentials from explicit flags, falling back to the values of
/// `TASMOTA_USER` and `TASMOTA_PASSWORD`. Tasmota web auth uses username `admin` by
/// default when only a password is set.
pub fn resolve_credentials(
    user: Option<String>,
    password: Option<String>,
    env_user: Option<String>,
    env_password: Option<String>,
) -> (r: Option<Credentials>)
    ensures
        opt_creds(r) == credentials_from(
            opt_text(user),
            opt_text(password),
            opt_text(env_user),
            opt_text(env_password),
        ),
{
    let u = match given_string(user) {
        Some(s) => Some(s),
        None => given_string(env_user),
    };
    let p = match given_string(password) {
        Some(s) => Some(s),
        None => given_string(env_password),
    };
    match (u, p) {
        (None, None) => None,
        (Some(u), Some(p)) => Some(Credentials { user: u, password: p }),
        (Some(u), None) => Some(Credentials { user: u, password: String::new() }),
        (None, Some(p)) => Some(Credentials { user: String::from_str("admin"), password: p }),
    }
}

/// `Path::join` of a relative component: a `/` goes between unless the directory is
/// empty or already ends with one.
pub open spec fn joined(dir: Seq<char>, name: Seq<char>) -> Seq<char> {
    if dir.len() == 0 || dir.last() == '/' {
        dir + name
    } else {
        dir + "/"@ + name
    }
}

/// Joins a relative component onto a directory path.
pub fn join_path(dir: &str, name: &str) -> (r: String)
    ensures
        r@ == joined(dir@, name@),
{
    let d = to_chars(dir);
    let mut r = String::from_str(dir);
    if d.len() > 0 && d[d.len() - 1] != '/' {
        r.append("/");
    }
    r.append(name);
    r
}

/// The configuration directory: `$XDG_CONFIG_HOME/tasmota`, else
/// `$HOME/.config/tasmota`, else `.tasmota`; an empty variable counts as unset.
pub open spec fn config_dir_of(xdg: Option<Seq<char>>, home: Option<Seq<char>>) -> Seq<char> {
    match given(xdg) {
        Some(x) => joined(x, "tasmota"@),
        None => match given(home) {
            Some(h) => joined(joined(h, ".config"@), "tasmota"@),
            None => ".tasmota"@,
        },
    }
}

pub open spec fn opt_str(v: Option<&str>) -> Option<Seq<char>> {
    match v {
        Some(s) => Some(s@),
        None => None,
    }
}

/// The configuration directory, given the values of `XDG_CONFIG_HOME` and `HOME`.
pub fn config_dir(xdg_config_home: Option<&str>, home: Option<&str>) -> (r: String)
    ensures
        r@ == config_dir_of(opt_str(xdg_config_home), opt_str(home)),
{
    if let Some(x) = xdg_config_home {
        if !x.is_empty() {
            return join_path(x, "tasmota");
        }
    }
    if let Some(h) = home {
        if !h.is_empty() {
            let c = join_path(h, ".config");
            return join_path(c.as_str(), "tasmota");
        }
    }
    String::from_str(".tasmota")
}

/// The runtime context from the global options: the device cache is
/// `devices.json` and the groups file `groups.toml`, both in `dir`.
pub fn build_ctx(
    format: OutputFormat,
    timeout_secs: u64,
    credentials: Option<Credentials>,
    dir: &str,
    yes: bool,
    dry_run: bool,
) -> (r: Ctx)
    ensures
        r.format == format,
        r.timeout_secs == timeout_secs,
        r.credentials == credentials,
        r.cache_path@ == joined(dir@, "devices.json"@),
        r.groups_path@ == joined(dir@, "groups.toml"@),
        r.yes == yes,
        r.dry_run == dry_run,
{
    Ctx {
        format,
        timeout_secs,
        credentials,
        cache_path: join_path(dir, "devices.json"),
        groups_path: join_path(dir, "groups.toml"),
        yes,
        dry_run,
    }
}

} // verus!
