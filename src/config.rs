//! The worker's configuration, read from the tree of its YAML file.

use vstd::prelude::*;
use vstd::string::*;

use crate::build_props::BuildProperties;
use crate::limits::GradingLimits;
use crate::storage::{join_path, path_join, LocationsConfig};
use crate::text::{eq_ignoring_ascii_case, eq_ignore_ascii_case, trim, trimmed};
use crate::yaml::{field, limits_from_yaml, limits_from_yaml_spec, text_field, int_field, bool_field, YamlValue};

verus! {

/// A path from the configuration: absolute as it stands, otherwise
/// relative to the configuration file's directory.
pub fn resolve_relative(base_path: &str, part: &str) -> (r: String)
    ensures
        r@ == join_path(base_path@, part@),
{
    path_join(base_path, part)
}

/// Relies on `num_cpus::get`: the number of CPUs available to this
/// process. Nothing is assumed of the number.
#[verifier::external_body]
fn available_cpus() -> (r: usize) {
    num_cpus::get()
}

/// The size of the worker pool and what the worker advertises.
#[derive(Clone, Debug)]
pub struct JobsConfig {
    pub workers: usize,
    pub arch_specific_only: bool,
    pub name: String,
}

/// The pool size: the configured count, or every CPU where none (zero) or
/// more than the CPUs is configured.
pub open spec fn pool_size(configured: Option<i64>, cpus: usize) -> usize {
    let w = match configured {
        Some(i) => i as usize,
        None => 0,
    };
    if w == 0 || w > cpus { cpus } else { w }
}

impl JobsConfig {
    /// One worker per CPU, not restricted to the host's architecture.
    pub fn default() -> (r: JobsConfig)
        ensures
            r.arch_specific_only == false,
            r.name@ == "default"@,
    {
        JobsConfig {
            workers: available_cpus(),
            arch_specific_only: false,
            name: String::from_str("default"),
        }
    }

    /// Reads the `jobs` block with the host's CPU count.
    pub fn from_yaml(root: &YamlValue) -> (r: JobsConfig)
        ensures
            exists|c: usize| r.workers == pool_size(int_field(*root, "workers"@), c),
            r.arch_specific_only == (bool_field(*root, "arch_specific_only"@) == Some(true)),
            r.name@ == "default"@,
    {
        Self::from_yaml_with_cpus(root, available_cpus())
    }

    /// Reads the `jobs` block: `workers` clamped to `cpus` (zero meaning
    /// all of them) and `arch_specific_only`.
    pub fn from_yaml_with_cpus(root: &YamlValue, cpus: usize) -> (r: JobsConfig)
        ensures
            r.workers == pool_size(int_field(*root, "workers"@), cpus),
            r.arch_specific_only == (bool_field(*root, "arch_specific_only"@) == Some(true)),
            r.name@ == "default"@,
    {
        let w: usize = match root.get_i64("workers") {
            Some(i) => i as usize,
            None => 0,
        };
        let workers = if w == 0 || w > cpus {
            cpus
        } else {
            w
        };
        JobsConfig {
            workers,
            arch_specific_only: root.get_bool("arch_specific_only") == Some(true),
            name: String::from_str("default"),
        }
    }
}

/// Reads the `locations` block: each path resolved against the
/// configuration's directory; every one of them is required.
pub fn locations_from_yaml(conf_file_dir: &str, root: &YamlValue) -> (r: Result<LocationsConfig, String>)
    ensures
        r matches Ok(l) ==> (text_field(*root, "working_directory"@) matches Some(w) && l.working_directory@
            == join_path(conf_file_dir@, w)),
        r matches Ok(l) ==> (text_field(*root, "cache_directory"@) matches Some(c) && l.cache_directory@
            == join_path(conf_file_dir@, c)),
        r matches Ok(l) ==> (text_field(*root, "system_environment"@) matches Some(s) && l.system_root@
            == join_path(conf_file_dir@, s)),
        r is Err <==> (text_field(*root, "working_directory"@) is None || text_field(
            *root,
            "cache_directory"@,
        ) is None || text_field(*root, "system_environment"@) is None),
{
    let working = match root.get_text("working_directory") {
        Some(w) => w,
        None => return Err(String::from_str("Required location->working_directory path")),
    };
    let cache = match root.get_text("cache_directory") {
        Some(c) => c,
        None => return Err(String::from_str("Required location->cache_directory path")),
    };
    let system = match root.get_text("system_environment") {
        Some(s) => s,
        None => return Err(String::from_str("Required location->system_environment path")),
    };
    Ok(
        LocationsConfig {
            working_directory: resolve_relative(conf_file_dir, working.as_str()),
            cache_directory: resolve_relative(conf_file_dir, cache.as_str()),
            system_root: resolve_relative(conf_file_dir, system.as_str()),
        },
    )
}

/// How much the worker logs.
#[derive(Clone, Copy, Debug, PartialEq, Eq, Structural)]
pub enum LogLevel {
    Critical,
    Error,
    Warning,
    Info,
    Debug,
    Trace,
}

/// Where the log goes and how much of it.
#[derive(Clone, Debug)]
pub struct LogConfig {
    pub path: String,
    pub level: LogLevel,
}

/// The level that a name stands for, ignoring ASCII case.
pub open spec fn level_named(s: Seq<char>) -> Option<LogLevel> {
    if eq_ignoring_ascii_case(s, "info"@) {
        Some(LogLevel::Info)
    } else if eq_ignoring_ascii_case(s, "fatal"@) || eq_ignoring_ascii_case(s, "critical"@) {
        Some(LogLevel::Critical)
    } else if eq_ignoring_ascii_case(s, "debug"@) {
        Some(LogLevel::Debug)
    } else if eq_ignoring_ascii_case(s, "error"@) {
        Some(LogLevel::Error)
    } else if eq_ignoring_ascii_case(s, "warning"@) || eq_ignoring_ascii_case(s, "warn"@) {
        Some(LogLevel::Warning)
    } else if eq_ignoring_ascii_case(s, "trace"@) {
        Some(LogLevel::Trace)
    } else {
        None
    }
}

/// The log level named by `s` in any case; `None` for an unknown name.
pub fn log_level_from_string(s: &String) -> (r: Option<LogLevel>)
    ensures
        r == level_named(s@),
{
    let t = s.as_str();
    if eq_ignore_ascii_case(t, "info") {
        Some(LogLevel::Info)
    } else if eq_ignore_ascii_case(t, "fatal") || eq_ignore_ascii_case(t, "critical") {
        Some(LogLevel::Critical)
    } else if eq_ignore_ascii_case(t, "debug") {
        Some(LogLevel::Debug)
    } else if eq_ignore_ascii_case(t, "error") {
        Some(LogLevel::Error)
    } else if eq_ignore_ascii_case(t, "warning") || eq_ignore_ascii_case(t, "warn") {
        Some(LogLevel::Warning)
    } else if eq_ignore_ascii_case(t, "trace") {
        Some(LogLevel::Trace)
    } else {
        None
    }
}

/// A `log` block whose level names no level.
pub open spec fn log_level_unknown(root: YamlValue) -> bool {
    text_field(root, "level"@) matches Some(l) && level_named(l) is None
}

impl LogConfig {
    /// Standard output, at the info level.
    pub fn default() -> (r: LogConfig)
        ensures
            r.path@.len() == 0,
            r.level == LogLevel::Info,
    {
        LogConfig { path: String::new(), level: LogLevel::Info }
    }

    /// Reads the `log` block: `path` and `level`; an unknown level is an
    /// error.
    pub fn from_yaml(root: &YamlValue) -> (r: Result<LogConfig, String>)
        ensures
            r matches Ok(c) ==> (match text_field(*root, "path"@) {
                Some(p) => c.path@ == p,
                None => c.path@.len() == 0,
            }),
            r matches Ok(c) ==> (match text_field(*root, "level"@) {
                Some(l) => level_named(l) == Some(c.level),
                None => c.level == LogLevel::Info,
            }),
            r is Err <==> log_level_unknown(*root),
    {
        let mut config = LogConfig::default();
        match root.get_text("path") {
            Some(p) => {
                config.path = p;
            },
            None => {},
        }
        match root.get_text("level") {
            Some(l) => match log_level_from_string(&l) {
                Some(level) => {
                    config.level = level;
                },
                None => {
                    let mut m = String::from_str("wrong log level ");
                    m.append(l.as_str());
                    return Err(m);
                },
            },
            None => {},
        }
        Ok(config)
    }
}

/// The coordinator's two endpoints, as configured.
#[derive(Clone, Debug)]
pub struct EndpointsConfig {
    pub courses_content_uri: String,
    pub submissions_uri: String,
}

/// Where the token that authenticates the worker comes from.
#[derive(Clone, Debug)]
pub enum TokenSource {
    /// The token itself.
    Inline(String),
    /// A file that holds it.
    File(String),
}

/// The coordinator's endpoints and the worker's token.
#[derive(Clone, Debug)]
pub struct RpcConfig {
    pub endpoints: EndpointsConfig,
    pub private_token: TokenSource,
}

/// The token that a token file's text holds: the text without
/// surrounding whitespace.
pub fn token_from_file_text(text: &str) -> (r: String)
    ensures
        r@ == trim(text@),
{
    String::from_str(trimmed(text))
}

/// An `rpc` block names both endpoints and a token or token file.
pub open spec fn rpc_block_ok(root: YamlValue) -> bool {
    &&& field(root, "endpoints"@) matches Some(e) && text_field(e, "courses_content"@) is Some
        && text_field(e, "submissions"@) is Some
    &&& (text_field(root, "private_token_file"@) is Some || text_field(root, "private_token"@) is Some)
}

/// The `locations` block names all three directories.
pub open spec fn locations_block_ok(root: YamlValue) -> bool {
    text_field(root, "working_directory"@) is Some && text_field(root, "cache_directory"@) is Some
        && text_field(root, "system_environment"@) is Some
}

impl RpcConfig {
    /// Reads the `rpc` block: both endpoints are required; a token file
    /// (resolved against the configuration's directory) takes precedence
    /// over an inline token, and one of them is required.
    pub fn from_yaml(conf_file_dir: &str, root: &YamlValue) -> (r: Result<RpcConfig, String>)
        ensures
            r matches Ok(c) ==> (field(*root, "endpoints"@) matches Some(e) && text_field(
                e,
                "courses_content"@,
            ) == Some(c.endpoints.courses_content_uri@) && text_field(e, "submissions"@) == Some(
                c.endpoints.submissions_uri@,
            )),
            r matches Ok(c) ==> (match text_field(*root, "private_token_file"@) {
                Some(f) => c.private_token matches TokenSource::File(p) && p@ == join_path(
                    conf_file_dir@,
                    f,
                ),
                None => text_field(*root, "private_token"@) matches Some(t)
                    && c.private_token matches TokenSource::Inline(v) && v@ == t,
            }),
            r is Ok <==> rpc_block_ok(*root),
    {
        let endpoints = match root.get("endpoints") {
            Some(e) => e,
            None => return Err(String::from_str("No RPC in config file")),
        };
        let courses = match endpoints.get_text("courses_content") {
            Some(c) => c,
            None => return Err(String::from_str("No courses_content RPC URI set in config file")),
        };
        let submissions = match endpoints.get_text("submissions") {
            Some(s) => s,
            None => return Err(String::from_str("No submissions RPC URI set in config file")),
        };
        let token = match root.get_text("private_token_file") {
            Some(f) => TokenSource::File(resolve_relative(conf_file_dir, f.as_str())),
            None => match root.get_text("private_token") {
                Some(t) => TokenSource::Inline(t),
                None => return Err(String::from_str("No RPC private token in config file")),
            },
        };
        Ok(
            RpcConfig {
                endpoints: EndpointsConfig { courses_content_uri: courses, submissions_uri: submissions },
                private_token: token,
            },
        )
    }
}

/// The whole configuration of a worker.
#[derive(Clone, Debug)]
pub struct GraderConfig {
    pub log: LogConfig,
    pub rpc: RpcConfig,
    pub jobs: JobsConfig,
    pub locations: LocationsConfig,
    pub default_limits: GradingLimits,
    pub default_build_properties: BuildProperties,
}

impl GraderConfig {
    /// Reads the configuration's tree: `rpc` and `locations` are required;
    /// `log`, `jobs` and `default_limits` replace the defaults where given.
    pub fn from_yaml(conf_file_dir: &str, root: &YamlValue) -> (r: Result<GraderConfig, String>)
        ensures
            r matches Ok(c) ==> (match field(*root, "default_limits"@) {
                Some(l) => c.default_limits == limits_from_yaml_spec(l),
                None => c.default_limits == GradingLimits::default_value_spec(),
            }),
            r matches Ok(c) ==> c.default_build_properties.wf(),
            r is Ok <==> ((field(*root, "rpc"@) matches Some(x) && rpc_block_ok(x)) && (field(
                *root,
                "locations"@,
            ) matches Some(x) && locations_block_ok(x)) && !(field(*root, "log"@) matches Some(x)
                && log_level_unknown(x))),
            r matches Ok(c) ==> (match field(*root, "log"@) {
                Some(x) => match text_field(x, "level"@) {
                    Some(l) => level_named(l) == Some(c.log.level),
                    None => c.log.level == LogLevel::Info,
                },
                None => c.log.level == LogLevel::Info && c.log.path@.len() == 0,
            }),
            r matches Ok(c) ==> (field(*root, "locations"@) matches Some(x) && text_field(
                x,
                "cache_directory"@,
            ) matches Some(d) && c.locations.cache_directory@ == join_path(conf_file_dir@, d)),
            r matches Ok(c) ==> (field(*root, "jobs"@) matches Some(x) ==> c.jobs.arch_specific_only
                == (bool_field(x, "arch_specific_only"@) == Some(true))),
    {
        let rpc = match root.get("rpc") {
            Some(y) => RpcConfig::from_yaml(conf_file_dir, y)?,
            None => return Err(String::from_str("No rpc section in config file")),
        };
        let locations = match root.get("locations") {
            Some(y) => locations_from_yaml(conf_file_dir, y)?,
            None => return Err(String::from_str("No locations section in config file")),
        };
        let log = match root.get("log") {
            Some(y) => LogConfig::from_yaml(y)?,
            None => LogConfig::default(),
        };
        let jobs = match root.get("jobs") {
            Some(y) => JobsConfig::from_yaml(y),
            None => JobsConfig::default(),
        };
        let default_limits = match root.get("default_limits") {
            Some(y) => limits_from_yaml(y),
            None => GradingLimits::default_value(),
        };
        Ok(
            GraderConfig {
                log,
                rpc,
                jobs,
                locations,
                default_limits,
                default_build_properties: BuildProperties::default(),
            },
        )
    }
}

} // verus!
