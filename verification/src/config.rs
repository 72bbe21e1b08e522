//! Run configuration (`.jlo/config.toml`): its schema, its defaults, and the
//! role lists it configures.

use vstd::prelude::*;
use crate::data::{DataValue, entry_lookup, lookup, parse_toml, toml_tree};
use crate::error::AppError;
use crate::layer::{Layer, layer_dir};
use crate::text::{concat, concat3, owned, str_eq, views};
use crate::version::{all_digits, digits_value};

verus! {

pub open spec fn default_api_url() -> Seq<char> {
    "https://jules.googleapis.com/v1alpha/sessions"@
}

pub open spec fn default_max_parallel() -> nat {
    3
}

pub open spec fn default_timeout_secs() -> nat {
    30
}

pub open spec fn default_max_retries() -> nat {
    3
}

pub open spec fn default_retry_delay_ms() -> nat {
    1000
}

/// Execution settings (`[run]`).
#[derive(Debug, Clone)]
pub struct ExecutionConfig {
    pub default_branch: String,
    pub jules_branch: String,
    pub parallel: bool,
    pub max_parallel: usize,
}

/// Jules API settings (`[jules]`).
#[derive(Debug, Clone)]
pub struct JulesApiConfig {
    pub api_url: String,
    pub timeout_secs: u64,
    pub max_retries: u32,
    pub retry_delay_ms: u64,
}

/// Roles configured per layer.
#[derive(Debug, Clone, Default)]
pub struct AgentConfig {
    pub observers: Vec<String>,
    pub deciders: Vec<String>,
    pub planners: Vec<String>,
    pub implementers: Vec<String>,
}

/// The run configuration.
#[derive(Debug, Clone)]
pub struct RunConfig {
    pub run: ExecutionConfig,
    pub jules: JulesApiConfig,
    pub agents: AgentConfig,
}

pub open spec fn is_default_run(c: ExecutionConfig) -> bool {
    &&& c.default_branch@ == "main"@
    &&& c.jules_branch@ == "jules"@
    &&& c.parallel
    &&& c.max_parallel == default_max_parallel()
}

pub open spec fn is_default_jules(c: JulesApiConfig) -> bool {
    &&& c.api_url@ == default_api_url()
    &&& c.timeout_secs == default_timeout_secs()
    &&& c.max_retries == default_max_retries()
    &&& c.retry_delay_ms == default_retry_delay_ms()
}

impl Default for ExecutionConfig {
    fn default() -> (r: Self)
        ensures
            is_default_run(r),
    {
        ExecutionConfig {
            default_branch: owned("main"),
            jules_branch: owned("jules"),
            parallel: true,
            max_parallel: 3,
        }
    }
}

impl Default for JulesApiConfig {
    fn default() -> (r: Self)
        ensures
            is_default_jules(r),
    {
        JulesApiConfig {
            api_url: owned("https://jules.googleapis.com/v1alpha/sessions"),
            timeout_secs: 30,
            max_retries: 3,
            retry_delay_ms: 1000,
        }
    }
}

impl Default for RunConfig {
    fn default() -> (r: Self)
        ensures
            is_default_run(r.run),
            is_default_jules(r.jules),
            r.agents.observers@.len() == 0 && r.agents.deciders@.len() == 0
                && r.agents.planners@.len() == 0 && r.agents.implementers@.len() == 0,
    {
        RunConfig {
            run: ExecutionConfig::default(),
            jules: JulesApiConfig::default(),
            agents: AgentConfig {
                observers: Vec::new(),
                deciders: Vec::new(),
                planners: Vec::new(),
                implementers: Vec::new(),
            },
        }
    }
}

/// `[run]` as written in the file.
#[derive(Debug)]
pub struct ExecutionConfigDto {
    pub default_branch: Option<String>,
    pub jules_branch: Option<String>,
    pub parallel: Option<bool>,
    pub max_parallel: Option<usize>,
}

/// `[jules]` as written in the file (`api_url` already normalized as a URL).
#[derive(Debug)]
pub struct JulesApiConfigDto {
    pub api_url: Option<String>,
    pub timeout_secs: Option<u64>,
    pub max_retries: Option<u32>,
    pub retry_delay_ms: Option<u64>,
}

/// `[workflow]` as written in the file.
#[derive(Debug)]
pub struct WorkflowTimingConfigDto {
    pub runner_mode: Option<String>,
    pub cron: Option<Vec<String>>,
    pub wait_minutes_default: Option<u32>,
}

/// The whole file as written.
#[derive(Debug)]
pub struct RunConfigDto {
    pub run: Option<ExecutionConfigDto>,
    pub jules: Option<JulesApiConfigDto>,
    pub workflow: Option<WorkflowTimingConfigDto>,
}

pub open spec fn or_str(o: Option<String>, d: Seq<char>) -> Seq<char> {
    match o {
        Some(s) => s@,
        None => d,
    }
}

/// What `RunConfig::from_dto` makes of `[run]`.
pub open spec fn run_from_dto(d: Option<ExecutionConfigDto>, c: ExecutionConfig) -> bool {
    match d {
        None => is_default_run(c),
        Some(d) => {
            &&& c.default_branch@ == or_str(d.default_branch, "main"@)
            &&& c.jules_branch@ == or_str(d.jules_branch, "jules"@)
            &&& c.parallel == (match d.parallel {
                Some(p) => p,
                None => true,
            })
            &&& c.max_parallel == (match d.max_parallel {
                Some(m) => m as nat,
                None => default_max_parallel(),
            })
        },
    }
}

/// What `RunConfig::from_dto` makes of `[jules]`.
pub open spec fn jules_from_dto(d: Option<JulesApiConfigDto>, c: JulesApiConfig) -> bool {
    match d {
        None => is_default_jules(c),
        Some(d) => {
            &&& c.api_url@ == or_str(d.api_url, default_api_url())
            &&& c.timeout_secs == (match d.timeout_secs {
                Some(t) => t as nat,
                None => default_timeout_secs(),
            })
            &&& c.max_retries == (match d.max_retries {
                Some(t) => t as nat,
                None => default_max_retries(),
            })
            &&& c.retry_delay_ms == (match d.retry_delay_ms {
                Some(t) => t as nat,
                None => default_retry_delay_ms(),
            })
        },
    }
}

impl RunConfig {
    /// The configuration a file describes: each setting from the file, or its
    /// default where the file leaves it out. No roles are configured.
    pub fn from_dto(dto: RunConfigDto) -> (r: RunConfig)
        ensures
            run_from_dto(dto.run, r.run),
            jules_from_dto(dto.jules, r.jules),
            r.agents.observers@.len() == 0 && r.agents.deciders@.len() == 0
                && r.agents.planners@.len() == 0 && r.agents.implementers@.len() == 0,
    {
        let default_run = ExecutionConfig::default();
        let run = match dto.run {
            Some(d) => ExecutionConfig {
                default_branch: match d.default_branch {
                    Some(v) => v,
                    None => default_run.default_branch,
                },
                jules_branch: match d.jules_branch {
                    Some(v) => v,
                    None => default_run.jules_branch,
                },
                parallel: match d.parallel {
                    Some(v) => v,
                    None => default_run.parallel,
                },
                max_parallel: match d.max_parallel {
                    Some(v) => v,
                    None => default_run.max_parallel,
                },
            },
            None => default_run,
        };
        let default_jules = JulesApiConfig::default();
        let jules = match dto.jules {
            Some(d) => JulesApiConfig {
                api_url: match d.api_url {
                    Some(v) => v,
                    None => default_jules.api_url,
                },
                timeout_secs: match d.timeout_secs {
                    Some(v) => v,
                    None => default_jules.timeout_secs,
                },
                max_retries: match d.max_retries {
                    Some(v) => v,
                    None => default_jules.max_retries,
                },
                retry_delay_ms: match d.retry_delay_ms {
                    Some(v) => v,
                    None => default_jules.retry_delay_ms,
                },
            },
            None => default_jules,
        };
        RunConfig {
            run,
            jules,
            agents: AgentConfig {
                observers: Vec::new(),
                deciders: Vec::new(),
                planners: Vec::new(),
                implementers: Vec::new(),
            },
        }
    }
}


// ---- reading the file ----

/// `url::Url::parse(text)` followed by `as_str`: the serialized URL, or the
/// parser's error message.
pub uninterp spec fn url_parse(text: Seq<char>) -> Result<Seq<char>, Seq<char>>;

/// `url::Url::parse`: the contract claims that the result is the parser's
/// serialization of `text` (named `url_parse`), or its error message.
#[verifier::external_body]
fn parse_url(text: &str) -> (r: Result<String, String>)
    ensures
        match r {
            Ok(u) => url_parse(text@) == Ok::<Seq<char>, Seq<char>>(u@),
            Err(e) => url_parse(text@) == Err::<Seq<char>, Seq<char>>(e@),
        },
{
    url::Url::parse(text).map(|u| u.to_string()).map_err(|e| e.to_string())
}

/// Every key of the table is one of `allowed` (serde's `deny_unknown_fields`).
pub open spec fn keys_within(es: Seq<(DataValue, DataValue)>, allowed: Seq<Seq<char>>) -> bool {
    forall|i: int|
        0 <= i < es.len() ==> ((#[trigger] es[i]).0 matches DataValue::Text(k) && allowed.contains(
            k@,
        ))
}

pub open spec fn uint_of(v: DataValue) -> Option<nat> {
    match v {
        DataValue::Number(t) => crate::version::decimal_upto(t@, u64::MAX as nat),
        _ => None,
    }
}

/// Field `key` is absent, or has the shape `ok` asks for.
pub open spec fn field_ok(es: Seq<(DataValue, DataValue)>, key: Seq<char>, ok: spec_fn(DataValue) -> bool) -> bool {
    match entry_lookup(es, key) {
        None => true,
        Some(v) => ok(v),
    }
}

pub open spec fn is_text(v: DataValue) -> bool {
    v is Text
}

pub open spec fn is_bool(v: DataValue) -> bool {
    v is Bool
}

pub open spec fn is_uint_upto(max: nat) -> spec_fn(DataValue) -> bool {
    |v: DataValue| uint_of(v) matches Some(n) && n <= max
}

pub open spec fn is_text_list(v: DataValue) -> bool {
    v matches DataValue::List(items) && forall|i: int| 0 <= i < items@.len() ==> (#[trigger] items@[i]) is Text
}

pub open spec fn is_url(v: DataValue) -> bool {
    v matches DataValue::Text(u) && url_parse(u@) is Ok
}

/// The entries of section `name`, empty when it is absent.
pub open spec fn section(doc: Seq<(DataValue, DataValue)>, name: Seq<char>) -> Seq<(DataValue, DataValue)> {
    match entry_lookup(doc, name) {
        Some(DataValue::Table(es)) => es@,
        _ => seq![],
    }
}

/// Section `name` is absent or a table whose fields pass `ok`.
pub open spec fn section_ok(doc: Seq<(DataValue, DataValue)>, name: Seq<char>, ok: spec_fn(Seq<(DataValue, DataValue)>) -> bool) -> bool {
    match entry_lookup(doc, name) {
        None => true,
        Some(DataValue::Table(es)) => ok(es@),
        Some(_) => false,
    }
}

pub open spec fn run_fields_ok(es: Seq<(DataValue, DataValue)>) -> bool {
    &&& keys_within(
        es,
        seq![
            "default_branch"@,
            "jules_branch"@,
            "jlo_target_branch"@,
            "jules_worker_branch"@,
            "parallel"@,
            "max_parallel"@,
        ],
    )
    &&& field_ok(es, "default_branch"@, |v: DataValue| is_text(v))
    &&& field_ok(es, "jules_branch"@, |v: DataValue| is_text(v))
    &&& field_ok(es, "jlo_target_branch"@, |v: DataValue| is_text(v))
    &&& field_ok(es, "jules_worker_branch"@, |v: DataValue| is_text(v))
    &&& field_ok(es, "parallel"@, |v: DataValue| is_bool(v))
    &&& field_ok(es, "max_parallel"@, is_uint_upto(usize::MAX as nat))
}

pub open spec fn jules_fields_ok(es: Seq<(DataValue, DataValue)>) -> bool {
    &&& keys_within(es, seq!["api_url"@, "timeout_secs"@, "max_retries"@, "retry_delay_ms"@])
    &&& field_ok(es, "api_url"@, |v: DataValue| is_url(v))
    &&& field_ok(es, "timeout_secs"@, is_uint_upto(u64::MAX as nat))
    &&& field_ok(es, "max_retries"@, is_uint_upto(u32::MAX as nat))
    &&& field_ok(es, "retry_delay_ms"@, is_uint_upto(u64::MAX as nat))
}

pub open spec fn workflow_fields_ok(es: Seq<(DataValue, DataValue)>) -> bool {
    &&& keys_within(es, seq!["runner_mode"@, "cron"@, "wait_minutes_default"@])
    &&& field_ok(es, "runner_mode"@, |v: DataValue| is_text(v))
    &&& field_ok(es, "cron"@, |v: DataValue| is_text_list(v))
    &&& field_ok(es, "wait_minutes_default"@, is_uint_upto(u32::MAX as nat))
}

/// Whether a parsed configuration document follows the schema: known
/// sections and fields only, each of its type.
pub open spec fn config_doc_ok(doc: DataValue) -> bool {
    match doc {
        DataValue::Table(es) => {
            &&& keys_within(es@, seq!["run"@, "jules"@, "workflow"@, "observers"@, "innovators"@])
            &&& section_ok(es@, "observers"@, |f: Seq<(DataValue, DataValue)>| true)
            &&& section_ok(es@, "innovators"@, |f: Seq<(DataValue, DataValue)>| true)
            &&& section_ok(es@, "run"@, |f: Seq<(DataValue, DataValue)>| run_fields_ok(f))
            &&& section_ok(es@, "jules"@, |f: Seq<(DataValue, DataValue)>| jules_fields_ok(f))
            &&& section_ok(es@, "workflow"@, |f: Seq<(DataValue, DataValue)>| workflow_fields_ok(f))
        },
        _ => false,
    }
}

pub open spec fn text_field(es: Seq<(DataValue, DataValue)>, key: Seq<char>, d: Seq<char>) -> Seq<char> {
    match entry_lookup(es, key) {
        Some(DataValue::Text(s)) => s@,
        _ => d,
    }
}

pub open spec fn uint_field(es: Seq<(DataValue, DataValue)>, key: Seq<char>, d: nat) -> nat {
    match entry_lookup(es, key) {
        Some(v) => match uint_of(v) {
            Some(n) => n,
            None => d,
        },
        None => d,
    }
}

/// The configuration a schema-conforming document describes.
pub open spec fn config_of_doc(doc: Seq<(DataValue, DataValue)>, c: RunConfig) -> bool {
    let run = section(doc, "run"@);
    let jules = section(doc, "jules"@);
    &&& c.run.default_branch@ == text_field(
        run,
        "jlo_target_branch"@,
        text_field(run, "default_branch"@, "main"@),
    )
    &&& c.run.jules_branch@ == text_field(run, "jules_worker_branch"@, text_field(run, "jules_branch"@, "jules"@))
    &&& c.run.parallel == (match entry_lookup(run, "parallel"@) {
        Some(DataValue::Bool(b)) => b,
        _ => true,
    })
    &&& c.run.max_parallel == uint_field(run, "max_parallel"@, default_max_parallel())
    &&& c.jules.api_url@ == (match entry_lookup(jules, "api_url"@) {
        Some(DataValue::Text(u)) => match url_parse(u@) {
            Ok(n) => n,
            Err(_) => default_api_url(),
        },
        _ => default_api_url(),
    })
    &&& c.jules.timeout_secs == uint_field(jules, "timeout_secs"@, default_timeout_secs())
    &&& c.jules.max_retries == uint_field(jules, "max_retries"@, default_max_retries())
    &&& c.jules.retry_delay_ms == uint_field(jules, "retry_delay_ms"@, default_retry_delay_ms())
    &&& c.agents.observers@.len() == 0 && c.agents.deciders@.len() == 0
    &&& c.agents.planners@.len() == 0 && c.agents.implementers@.len() == 0
}

fn invalid(what: &str, key: &str) -> (r: AppError)
    ensures
        r matches AppError::RunConfigInvalid(m) && m@ == what@ + key@ + "`"@,
{
    AppError::RunConfigInvalid(concat3(what, key, "`"))
}

/// Check that every key of the table is one of `allowed`.
fn check_keys(es: &Vec<(DataValue, DataValue)>, allowed: &Vec<&str>, where_: &str) -> (r: Result<(), AppError>)
    ensures
        r is Ok <==> keys_within(es@, views(allowed@)),
        r matches Err(e) ==> e is RunConfigInvalid,
{
    let mut k: usize = 0;
    while k < es.len()
        invariant
            k <= es.len(),
            forall|i: int|
                0 <= i < k ==> ((#[trigger] es@[i]).0 matches DataValue::Text(name) && views(allowed@).contains(name@)),
        decreases es.len() - k,
    {
        match &es[k].0 {
            DataValue::Text(name) => {
                let mut j: usize = 0;
                let mut found = false;
                while j < allowed.len()
                    invariant
                        j <= allowed.len(),
                        found ==> views(allowed@).contains(name@),
                        !found ==> forall|m: int| 0 <= m < j ==> views(allowed@)[m] != name@,
                    decreases allowed.len() - j,
                {
                    if str_eq(allowed[j], name.as_str()) {
                        found = true;
                        assert(views(allowed@)[j as int] == name@);
                    }
                    j = j + 1;
                }
                if !found {
                    return Err(invalid(where_, name.as_str()));
                }
            },
            _ => {
                return Err(AppError::RunConfigInvalid(concat(where_, "non-string key`")));
            },
        }
        k = k + 1;
    }
    Ok(())
}

fn read_text(es: &Vec<(DataValue, DataValue)>, key: &str) -> (r: Result<Option<String>, AppError>)
    ensures
        r is Ok <==> field_ok(es@, key@, |v: DataValue| is_text(v)),
        r matches Ok(o) ==> crate::text::opt_string_view(o) == (match entry_lookup(es@, key@) {
            Some(DataValue::Text(s)) => Some(s@),
            _ => None,
        }),
        r matches Err(e) ==> e is RunConfigInvalid,
{
    match lookup(es, key) {
        None => Ok(None),
        Some(DataValue::Text(s)) => Ok(Some(s.clone())),
        Some(_) => Err(invalid("invalid type: expected a string for `", key)),
    }
}

fn read_bool(es: &Vec<(DataValue, DataValue)>, key: &str) -> (r: Result<Option<bool>, AppError>)
    ensures
        r is Ok <==> field_ok(es@, key@, |v: DataValue| is_bool(v)),
        r matches Ok(o) ==> o == (match entry_lookup(es@, key@) {
            Some(DataValue::Bool(b)) => Some(b),
            _ => None,
        }),
        r matches Err(e) ==> e is RunConfigInvalid,
{
    match lookup(es, key) {
        None => Ok(None),
        Some(DataValue::Bool(b)) => Ok(Some(*b)),
        Some(_) => Err(invalid("invalid type: expected a boolean for `", key)),
    }
}

fn read_uint(es: &Vec<(DataValue, DataValue)>, key: &str, max: u64) -> (r: Result<Option<u64>, AppError>)
    ensures
        r is Ok <==> field_ok(es@, key@, is_uint_upto(max as nat)),
        r matches Ok(o) ==> match o {
            Some(n) => entry_lookup(es@, key@) matches Some(v) && uint_of(v) == Some(n as nat),
            None => entry_lookup(es@, key@) is None,
        },
        r matches Err(e) ==> e is RunConfigInvalid,
{
    match lookup(es, key) {
        None => Ok(None),
        Some(DataValue::Number(t)) => match crate::version::parse_decimal(t.as_str(), max) {
            Some(n) => {
                proof {
                    assert(crate::version::decimal_upto(t@, max as nat) == Some(n as nat));
                    assert(crate::version::decimal_upto(t@, u64::MAX as nat) == Some(n as nat));
                }
                Ok(Some(n))
            },
            None => {
                proof {
                    match crate::version::decimal_upto(t@, u64::MAX as nat) {
                        Some(m) => {
                            assert(m > max);
                        },
                        None => {},
                    }
                }
                Err(invalid("invalid value: expected an unsigned integer in range for `", key))
            },
        },
        Some(_) => Err(invalid("invalid type: expected an integer for `", key)),
    }
}

fn read_text_list(es: &Vec<(DataValue, DataValue)>, key: &str) -> (r: Result<Option<Vec<String>>, AppError>)
    ensures
        r is Ok <==> field_ok(es@, key@, |v: DataValue| is_text_list(v)),
        r matches Err(e) ==> e is RunConfigInvalid,
{
    match lookup(es, key) {
        None => Ok(None),
        Some(DataValue::List(items)) => {
            let mut out: Vec<String> = Vec::new();
            let mut k: usize = 0;
            while k < items.len()
                invariant
                    k <= items.len(),
                    entry_lookup(es@, key@) == Some(DataValue::List(*items)),
                    forall|i: int| 0 <= i < k ==> (#[trigger] items@[i]) is Text,
                decreases items.len() - k,
            {
                match &items[k] {
                    DataValue::Text(s) => out.push(s.clone()),
                    _ => {
                        proof {
                            assert(!(items@[k as int] is Text));
                            assert(!is_text_list(DataValue::List(*items)));
                        }
                        return Err(invalid("invalid type: expected a list of strings for `", key));
                    },
                }
                k = k + 1;
            }
            Ok(Some(out))
        },
        Some(_) => Err(invalid("invalid type: expected a sequence for `", key)),
    }
}

/// The table of section `name`: `Ok(None)` when absent, an error when it is
/// not a table.
fn read_section<'a>(doc: &'a Vec<(DataValue, DataValue)>, name: &str) -> (r: Result<Option<&'a Vec<(DataValue, DataValue)>>, AppError>)
    ensures
        match r {
            Ok(None) => entry_lookup(doc@, name@) is None,
            Ok(Some(es)) => entry_lookup(doc@, name@) == Some(DataValue::Table(*es)),
            Err(e) => (entry_lookup(doc@, name@) matches Some(v) && !(v is Table)) && e is RunConfigInvalid,
        },
{
    match lookup(doc, name) {
        None => Ok(None),
        Some(DataValue::Table(es)) => Ok(Some(es)),
        Some(_) => Err(invalid("invalid type: expected a table for `", name)),
    }
}

/// Read a configuration document into its DTO, following the schema.
fn read_config_doc(doc: &DataValue) -> (r: Result<RunConfig, AppError>)
    ensures
        r is Ok <==> config_doc_ok(*doc),
        r matches Ok(c) ==> doc matches DataValue::Table(es) && config_of_doc(es@, c),
        r matches Err(e) ==> e is RunConfigInvalid,
{
    let es = match doc {
        DataValue::Table(es) => es,
        _ => {
            return Err(AppError::RunConfigInvalid(owned("configuration must be a table")));
        },
    };
    let top = vec!["run", "jules", "workflow", "observers", "innovators"];
    proof {
        assert(views(top@) =~= seq!["run"@, "jules"@, "workflow"@, "observers"@, "innovators"@]);
    }
    check_keys(es, &top, "unknown field `")?;
    read_section(es, "observers")?;
    read_section(es, "innovators")?;
    let run = match read_section(es, "run")? {
        None => None,
        Some(f) => {
            let keys = vec![
                "default_branch",
                "jules_branch",
                "jlo_target_branch",
                "jules_worker_branch",
                "parallel",
                "max_parallel",
            ];
            proof {
                assert(views(keys@) =~= seq![
                    "default_branch"@,
                    "jules_branch"@,
                    "jlo_target_branch"@,
                    "jules_worker_branch"@,
                    "parallel"@,
                    "max_parallel"@,
                ]);
            }
            check_keys(f, &keys, "unknown field in [run] `")?;
            let legacy_target = read_text(f, "default_branch")?;
            let legacy_worker = read_text(f, "jules_branch")?;
            let default_branch = match read_text(f, "jlo_target_branch")? {
                Some(b) => Some(b),
                None => legacy_target,
            };
            let jules_branch = match read_text(f, "jules_worker_branch")? {
                Some(b) => Some(b),
                None => legacy_worker,
            };
            let parallel = read_bool(f, "parallel")?;
            let max_parallel = match read_uint(f, "max_parallel", usize::MAX as u64)? {
                Some(n) => Some(n as usize),
                None => None,
            };
            Some(ExecutionConfigDto { default_branch, jules_branch, parallel, max_parallel })
        },
    };
    let jules = match read_section(es, "jules")? {
        None => None,
        Some(f) => {
            let keys = vec!["api_url", "timeout_secs", "max_retries", "retry_delay_ms"];
            proof {
                assert(views(keys@) =~= seq![
                    "api_url"@,
                    "timeout_secs"@,
                    "max_retries"@,
                    "retry_delay_ms"@,
                ]);
            }
            check_keys(f, &keys, "unknown field in [jules] `")?;
            let api_url = match lookup(f, "api_url") {
                None => None,
                Some(DataValue::Text(u)) => match parse_url(u.as_str()) {
                    Ok(n) => Some(n),
                    Err(e) => {
                        return Err(AppError::RunConfigInvalid(concat("invalid api_url: ", e.as_str())));
                    },
                },
                Some(_) => {
                    return Err(invalid("invalid type: expected a string for `", "api_url"));
                },
            };
            let timeout_secs = read_uint(f, "timeout_secs", u64::MAX)?;
            let max_retries = match read_uint(f, "max_retries", u32::MAX as u64)? {
                Some(n) => Some(n as u32),
                None => None,
            };
            let retry_delay_ms = read_uint(f, "retry_delay_ms", u64::MAX)?;
            Some(JulesApiConfigDto { api_url, timeout_secs, max_retries, retry_delay_ms })
        },
    };
    let workflow = match read_section(es, "workflow")? {
        None => None,
        Some(f) => {
            let keys = vec!["runner_mode", "cron", "wait_minutes_default"];
            proof {
                assert(views(keys@) =~= seq!["runner_mode"@, "cron"@, "wait_minutes_default"@]);
            }
            check_keys(f, &keys, "unknown field in [workflow] `")?;
            let runner_mode = read_text(f, "runner_mode")?;
            let cron = read_text_list(f, "cron")?;
            let wait_minutes_default = match read_uint(f, "wait_minutes_default", u32::MAX as u64)? {
                Some(n) => Some(n as u32),
                None => None,
            };
            Some(WorkflowTimingConfigDto { runner_mode, cron, wait_minutes_default })
        },
    };
    Ok(RunConfig::from_dto(RunConfigDto { run, jules, workflow }))
}

/// The error for a legacy `[agents]` section.
pub open spec fn legacy_agents_message() -> Seq<char> {
    "Legacy [agents] section is not supported. Use workstreams/<name>/scheduled.toml."@
}

/// Parse configuration from string content.
///
/// A legacy `[agents]` section is refused; otherwise the document must
/// follow the schema, and unset settings take their defaults.
pub fn parse_config_content(content: &str) -> (r: Result<RunConfig, AppError>)
    ensures
        match toml_tree(content@) {
            Err(msg) => r matches Err(AppError::RunConfigInvalid(m)) && m@ == msg,
            Ok(doc) => if crate::data::get(doc, "agents"@) is Some {
                r matches Err(AppError::Validation(m)) && m@ == legacy_agents_message()
            } else {
                (r is Ok <==> config_doc_ok(doc)) && (r matches Ok(c) ==> doc matches DataValue::Table(es)
                    && config_of_doc(es@, c))
            },
        },
{
    let doc = match parse_toml(content) {
        Ok(d) => d,
        Err(msg) => {
            return Err(AppError::RunConfigInvalid(msg));
        },
    };
    if doc.get("agents").is_some() {
        proof {
            reveal_strlit("Legacy [agents] section is not supported. Use workstreams/<name>/scheduled.toml.");
        }
        return Err(
            AppError::Validation(
                owned(
                    "Legacy [agents] section is not supported. Use workstreams/<name>/scheduled.toml.",
                ),
            ),
        );
    }
    read_config_doc(&doc)
}

/// Load and parse the run configuration; `content` is the text of
/// `.jlo/config.toml`, `None` when the file does not exist.
pub fn load_config(content: Option<&str>) -> (r: Result<RunConfig, AppError>)
    ensures
        content is None ==> r == Err::<RunConfig, AppError>(AppError::RunConfigMissing),
        content matches Some(c) ==> match toml_tree(c@) {
            Err(msg) => r matches Err(AppError::RunConfigInvalid(m)) && m@ == msg,
            Ok(doc) => if crate::data::get(doc, "agents"@) is Some {
                r matches Err(AppError::Validation(m)) && m@ == legacy_agents_message()
            } else {
                (r is Ok <==> config_doc_ok(doc)) && (r matches Ok(cfg) ==> doc matches DataValue::Table(es)
                    && config_of_doc(es@, cfg))
            },
        },
{
    match content {
        None => Err(AppError::RunConfigMissing),
        Some(c) => parse_config_content(c),
    }
}


/// Load the run configuration for a run (the run command's input boundary);
/// `content` is the text of `.jlo/config.toml`, `None` when it does not
/// exist.
pub fn load_run_config(content: Option<&str>) -> (r: Result<RunConfig, AppError>)
    ensures
        content is None ==> r == Err::<RunConfig, AppError>(AppError::RunConfigMissing),
        content matches Some(c) ==> match toml_tree(c@) {
            Err(msg) => r matches Err(AppError::RunConfigInvalid(m)) && m@ == msg,
            Ok(doc) => if crate::data::get(doc, "agents"@) is Some {
                r matches Err(AppError::Validation(m)) && m@ == legacy_agents_message()
            } else {
                (r is Ok <==> config_doc_ok(doc)) && (r matches Ok(cfg) ==> doc matches DataValue::Table(es)
                    && config_of_doc(es@, cfg))
            },
        },
{
    load_config(content)
}

} // verus!
