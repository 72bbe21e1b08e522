//! Workstream schedules (`scheduled.toml`), their export as a GitHub Actions
//! matrix, and the selection of the roles a run executes.

use vstd::prelude::*;
use crate::data::{DataValue, get, parse_toml, toml_tree, untag};
use crate::error::AppError;
use crate::layer::{Layer, layer_dir};
use crate::mock_run::{safe_path_component, validate_safe_path_component};
use crate::run::contains_name;
use crate::text::{concat, concat3, owned, str_eq, string_views};
use crate::version::{decimal_upto, parse_decimal};

verus! {

/// A role listed in a schedule.
#[derive(Debug, Clone)]
pub struct ScheduledRole {
    pub name: String,
    pub enabled: bool,
}

/// The roles a schedule lists for one layer, in order.
#[derive(Debug, Clone)]
pub struct ScheduleLayer {
    pub roles: Vec<ScheduledRole>,
}

/// A workstream's schedule.
#[derive(Debug, Clone)]
pub struct Schedule {
    pub version: u32,
    pub enabled: bool,
    pub observers: ScheduleLayer,
    pub deciders: ScheduleLayer,
    pub innovators: Option<ScheduleLayer>,
}

/// A layer's roles as (name, enabled) pairs.
pub open spec fn role_pairs(l: ScheduleLayer) -> Seq<(Seq<char>, bool)> {
    l.roles@.map_values(|r: ScheduledRole| (r.name@, r.enabled))
}

/// The names of the enabled roles, in order.
pub open spec fn enabled_names(ps: Seq<(Seq<char>, bool)>) -> Seq<Seq<char>>
    decreases ps.len(),
{
    if ps.len() == 0 {
        seq![]
    } else if ps.last().1 {
        enabled_names(ps.drop_last()).push(ps.last().0)
    } else {
        enabled_names(ps.drop_last())
    }
}

impl ScheduleLayer {
    /// The names of the enabled roles, in schedule order.
    pub fn enabled_roles(&self) -> (r: Vec<String>)
        ensures
            string_views(r@) == enabled_names(role_pairs(*self)),
    {
        let mut out: Vec<String> = Vec::new();
        let mut k: usize = 0;
        assert(role_pairs(*self).subrange(0, 0) =~= Seq::<(Seq<char>, bool)>::empty());
        while k < self.roles.len()
            invariant
                k <= self.roles.len(),
                string_views(out@) == enabled_names(role_pairs(*self).subrange(0, k as int)),
            decreases self.roles.len() - k,
        {
            assert(role_pairs(*self).subrange(0, k + 1).drop_last() =~= role_pairs(*self).subrange(
                0,
                k as int,
            ));
            if self.roles[k].enabled {
                out.push(self.roles[k].name.clone());
            }
            assert(string_views(out@) =~= enabled_names(role_pairs(*self).subrange(0, k + 1)));
            k = k + 1;
        }
        assert(role_pairs(*self).subrange(0, self.roles@.len() as int) =~= role_pairs(*self));
        out
    }
}

// ---- reading `scheduled.toml` ----

/// A role entry: a table with a string `name` and a boolean `enabled`.
pub open spec fn role_entry(v: DataValue) -> Option<(Seq<char>, bool)> {
    match (get(v, "name"@), get(v, "enabled"@)) {
        (Some(n), Some(e)) => match (untag(n), untag(e)) {
            (DataValue::Text(s), DataValue::Bool(b)) => Some((s@, b)),
            _ => None,
        },
        _ => None,
    }
}

/// Every entry of the list, read as a role; `None` when one is not a role.
pub open spec fn role_entries(vs: Seq<DataValue>) -> Option<Seq<(Seq<char>, bool)>>
    decreases vs.len(),
{
    if vs.len() == 0 {
        Some(seq![])
    } else {
        match (role_entries(vs.drop_last()), role_entry(vs.last())) {
            (Some(a), Some(e)) => Some(a.push(e)),
            _ => None,
        }
    }
}

/// A layer section: a table whose `roles` is a list of role entries.
pub open spec fn layer_section(v: DataValue) -> Option<Seq<(Seq<char>, bool)>> {
    match get(v, "roles"@) {
        Some(l) => match untag(l) {
            DataValue::List(items) => role_entries(items@),
            _ => None,
        },
        None => None,
    }
}

/// What a schedule document reads as: `version` (an integer that fits
/// `u32`), `enabled`, the `observers` and `deciders` sections and, when
/// present, the `innovators` section.
pub open spec fn schedule_fields(doc: DataValue) -> Option<
    (nat, bool, Seq<(Seq<char>, bool)>, Seq<(Seq<char>, bool)>, Option<Seq<(Seq<char>, bool)>>),
> {
    let version = match get(doc, "version"@) {
        Some(v) => match untag(v) {
            DataValue::Number(t) => decimal_upto(t@, u32::MAX as nat),
            _ => None,
        },
        None => None,
    };
    let enabled = match get(doc, "enabled"@) {
        Some(v) => match untag(v) {
            DataValue::Bool(b) => Some(b),
            _ => None,
        },
        None => None,
    };
    let observers = match get(doc, "observers"@) {
        Some(v) => layer_section(v),
        None => None,
    };
    let deciders = match get(doc, "deciders"@) {
        Some(v) => layer_section(v),
        None => None,
    };
    let innovators = match get(doc, "innovators"@) {
        Some(v) => match layer_section(v) {
            Some(l) => Some(Some(l)),
            None => None,
        },
        None => Some(None),
    };
    match (version, enabled, observers, deciders, innovators) {
        (Some(v), Some(e), Some(o), Some(d), Some(i)) => Some((v, e, o, d, i)),
        _ => None,
    }
}

/// Whether a schedule holds what a document reads as.
pub open spec fn schedule_matches(
    s: Schedule,
    f: (nat, bool, Seq<(Seq<char>, bool)>, Seq<(Seq<char>, bool)>, Option<Seq<(Seq<char>, bool)>>),
) -> bool {
    &&& s.version == f.0
    &&& s.enabled == f.1
    &&& role_pairs(s.observers) == f.2
    &&& role_pairs(s.deciders) == f.3
    &&& match (s.innovators, f.4) {
        (Some(l), Some(p)) => role_pairs(l) == p,
        (None, None) => true,
        _ => false,
    }
}

fn read_role_entry(v: &DataValue) -> (r: Option<ScheduledRole>)
    ensures
        match role_entry(*v) {
            Some(e) => r matches Some(x) && x.name@ == e.0 && x.enabled == e.1,
            None => r is None,
        },
{
    let n = v.get("name")?;
    let e = v.get("enabled")?;
    match (n.untagged(), e.untagged()) {
        (DataValue::Text(s), DataValue::Bool(b)) => Some(ScheduledRole { name: s.clone(), enabled: *b }),
        _ => None,
    }
}

fn read_layer_section(v: &DataValue) -> (r: Option<ScheduleLayer>)
    ensures
        match layer_section(*v) {
            Some(ps) => r matches Some(l) && role_pairs(l) == ps,
            None => r is None,
        },
{
    let l = v.get("roles")?;
    let items = match l.untagged() {
        DataValue::List(items) => items,
        _ => {
            return None;
        },
    };
    let mut roles: Vec<ScheduledRole> = Vec::new();
    let mut k: usize = 0;
    assert(items@.subrange(0, 0) =~= Seq::<DataValue>::empty());
    assert(layer_section(*v) == role_entries(items@));
    while k < items.len()
        invariant
            k <= items.len(),
            layer_section(*v) == role_entries(items@),
            role_entries(items@.subrange(0, k as int)) == Some(
                roles@.map_values(|r: ScheduledRole| (r.name@, r.enabled)),
            ),
        decreases items.len() - k,
    {
        assert(items@.subrange(0, k + 1).drop_last() =~= items@.subrange(0, k as int));
        assert(items@.subrange(0, k + 1).last() == items@[k as int]);
        match read_role_entry(&items[k]) {
            Some(role) => {
                let ghost before = roles@;
                roles.push(role);
                assert(roles@.map_values(|r: ScheduledRole| (r.name@, r.enabled)) =~= before.map_values(
                    |r: ScheduledRole| (r.name@, r.enabled),
                ).push((role.name@, role.enabled)));
            },
            None => {
                proof {
                    assert(role_entries(items@.subrange(0, k + 1)) is None);
                    lemma_role_entries_prefix_none(items@, k as int + 1);
                }
                return None;
            },
        }
        k = k + 1;
    }
    assert(items@.subrange(0, items@.len() as int) =~= items@);
    Some(ScheduleLayer { roles })
}

/// Once a prefix of a list fails to read as roles, the whole list does.
pub proof fn lemma_role_entries_prefix_none(vs: Seq<DataValue>, n: int)
    requires
        0 <= n <= vs.len(),
        role_entries(vs.subrange(0, n)) is None,
    ensures
        role_entries(vs) is None,
    decreases vs.len() - n,
{
    if n < vs.len() {
        assert(vs.subrange(0, n + 1).drop_last() =~= vs.subrange(0, n));
        lemma_role_entries_prefix_none(vs, n + 1);
    } else {
        assert(vs.subrange(0, n) =~= vs);
    }
}

/// Read a schedule from the content of `scheduled.toml`.
pub fn parse_schedule(content: &str) -> (r: Result<Schedule, AppError>)
    ensures
        match toml_tree(content@) {
            Err(msg) => r matches Err(AppError::ParseError { details, .. }) && details@ == msg,
            Ok(doc) => match schedule_fields(doc) {
                Some(f) => r matches Ok(s) && schedule_matches(s, f),
                None => r matches Err(e) && e is ParseError,
            },
        },
{
    let doc = match parse_toml(content) {
        Ok(d) => d,
        Err(msg) => {
            return Err(AppError::ParseError { what: owned("scheduled.toml"), details: msg });
        },
    };
    let invalid = AppError::ParseError {
        what: owned("scheduled.toml"),
        details: owned("expected version, enabled, [observers] and [deciders] with role lists"),
    };
    let version = match doc.get("version") {
        Some(v) => match v.untagged() {
            DataValue::Number(t) => match parse_decimal(t.as_str(), u32::MAX as u64) {
                Some(n) => n as u32,
                None => {
                    return Err(invalid);
                },
            },
            _ => {
                return Err(invalid);
            },
        },
        None => {
            return Err(invalid);
        },
    };
    let enabled = match doc.get("enabled") {
        Some(v) => match v.untagged() {
            DataValue::Bool(b) => *b,
            _ => {
                return Err(invalid);
            },
        },
        None => {
            return Err(invalid);
        },
    };
    let observers = match doc.get("observers") {
        Some(v) => match read_layer_section(v) {
            Some(l) => l,
            None => {
                return Err(invalid);
            },
        },
        None => {
            return Err(invalid);
        },
    };
    let deciders = match doc.get("deciders") {
        Some(v) => match read_layer_section(v) {
            Some(l) => l,
            None => {
                return Err(invalid);
            },
        },
        None => {
            return Err(invalid);
        },
    };
    let innovators = match doc.get("innovators") {
        Some(v) => match read_layer_section(v) {
            Some(l) => Some(l),
            None => {
                return Err(invalid);
            },
        },
        None => None,
    };
    Ok(Schedule { version, enabled, observers, deciders, innovators })
}

/// Load a workstream's schedule from the content of its `scheduled.toml`.
pub fn load_schedule(content: &str) -> (r: Result<Schedule, AppError>)
    ensures
        match toml_tree(content@) {
            Err(msg) => r matches Err(AppError::ParseError { details, .. }) && details@ == msg,
            Ok(doc) => match schedule_fields(doc) {
                Some(f) => r matches Ok(s) && schedule_matches(s, f),
                None => r matches Err(e) && e is ParseError,
            },
        },
{
    parse_schedule(content)
}


// ---- export as a GitHub Actions matrix ----

/// What a schedule export lists.
#[derive(Debug, Clone, Copy, PartialEq, Eq, Structural)]
pub enum ScheduleExportScope {
    /// The enabled workstreams.
    Workstreams,
    /// The enabled roles of one layer of one workstream.
    Roles,
}

/// The output format of a schedule export.
#[derive(Debug, Clone, Copy, PartialEq, Eq, Structural)]
pub enum ScheduleExportFormat {
    GithubMatrix,
}

/// Options of a schedule export.
#[derive(Debug, Clone)]
pub struct ScheduleExportOptions {
    pub scope: ScheduleExportScope,
    pub layer: Option<Layer>,
    pub workstream: Option<String>,
    pub format: ScheduleExportFormat,
}

/// A GitHub Actions matrix: one entry per job.
#[derive(Debug, Clone)]
pub struct ScheduleMatrix {
    pub entries: Vec<ScheduleMatrixEntry>,
}

/// A matrix entry: a workstream, and a role for role-scoped exports.
#[derive(Debug, Clone)]
pub struct ScheduleMatrixEntry {
    pub workstream: String,
    pub role: Option<String>,
}

/// The entries of a matrix as (workstream, role) pairs.
pub open spec fn matrix_view(m: ScheduleMatrix) -> Seq<(Seq<char>, Option<Seq<char>>)> {
    entry_views(m.entries@)
}

pub open spec fn entry_views(es: Seq<ScheduleMatrixEntry>) -> Seq<(Seq<char>, Option<Seq<char>>)> {
    es.map_values(|e: ScheduleMatrixEntry| (e.workstream@, crate::text::opt_string_view(e.role)))
}

/// The names of the enabled workstreams, in order, skipping empty names.
pub open spec fn enabled_workstreams(ws: Seq<(String, Schedule)>) -> Seq<Seq<char>>
    decreases ws.len(),
{
    if ws.len() == 0 {
        seq![]
    } else if ws.last().0@.len() > 0 && ws.last().1.enabled {
        enabled_workstreams(ws.drop_last()).push(ws.last().0@)
    } else {
        enabled_workstreams(ws.drop_last())
    }
}

/// Export the enabled workstreams; `workstreams` holds each workstream
/// directory, in listing order, with its schedule.
pub fn export_workstreams(workstreams: &Vec<(String, Schedule)>) -> (r: ScheduleMatrix)
    ensures
        matrix_view(r) == enabled_workstreams(workstreams@).map_values(
            |w: Seq<char>| (w, None::<Seq<char>>),
        ),
{
    let mut entries: Vec<ScheduleMatrixEntry> = Vec::new();
    let mut k: usize = 0;
    assert(workstreams@.subrange(0, 0) =~= Seq::<(String, Schedule)>::empty());
    while k < workstreams.len()
        invariant
            k <= workstreams.len(),
            entry_views(entries@) == enabled_workstreams(
                workstreams@.subrange(0, k as int),
            ).map_values(|w: Seq<char>| (w, None::<Seq<char>>)),
        decreases workstreams.len() - k,
    {
        assert(workstreams@.subrange(0, k + 1).drop_last() =~= workstreams@.subrange(0, k as int));
        let name = &workstreams[k].0;
        if name.as_str().unicode_len() > 0 && workstreams[k].1.enabled {
            let ghost before = entries@;
            entries.push(ScheduleMatrixEntry { workstream: name.clone(), role: None });
            assert(entry_views(entries@) =~= entry_views(before).push((name@, None::<Seq<char>>)));
        }
        assert(entry_views(entries@) =~= enabled_workstreams(
            workstreams@.subrange(0, k + 1),
        ).map_values(|w: Seq<char>| (w, None::<Seq<char>>)));
        k = k + 1;
    }
    assert(workstreams@.subrange(0, workstreams@.len() as int) =~= workstreams@);
    ScheduleMatrix { entries }
}

/// The layer section a role-scoped export or scheduled run reads, for the
/// layers that have one.
pub open spec fn scheduled_layer(s: Schedule, layer: Layer) -> Option<ScheduleLayer> {
    match layer {
        Layer::Observers => Some(s.observers),
        Layer::Decider => Some(s.deciders),
        _ => None,
    }
}

/// Export the enabled roles of `layer` in `workstream`, whose schedule is
/// `schedule`.
pub fn export_roles(layer: Layer, workstream: &str, schedule: &Schedule) -> (r: Result<ScheduleMatrix, AppError>)
    ensures
        !schedule.enabled ==> (r matches Err(e) && e is Validation),
        schedule.enabled ==> match scheduled_layer(*schedule, layer) {
            None => r matches Err(e) && e is Validation,
            Some(l) => r matches Ok(m) && matrix_view(m) == enabled_names(role_pairs(l)).map_values(
                |n: Seq<char>| (workstream@, Some(n)),
            ),
        },
{
    if !schedule.enabled {
        return Err(
            AppError::Validation(concat3("Workstream '", workstream, "' is disabled in scheduled.toml")),
        );
    }
    let roles = match layer {
        Layer::Observers => schedule.observers.enabled_roles(),
        Layer::Decider => schedule.deciders.enabled_roles(),
        _ => {
            return Err(
                AppError::Validation(
                    owned("Schedule export roles scope only supports observers or deciders"),
                ),
            );
        },
    };
    let mut entries: Vec<ScheduleMatrixEntry> = Vec::new();
    let mut k: usize = 0;
    while k < roles.len()
        invariant
            k <= roles.len(),
            entry_views(entries@) == string_views(roles@).subrange(
                0,
                k as int,
            ).map_values(|n: Seq<char>| (workstream@, Some(n))),
        decreases roles.len() - k,
    {
        let ghost before = entries@;
        let role = roles[k].clone();
        entries.push(ScheduleMatrixEntry { workstream: owned(workstream), role: Some(role) });
        assert(entry_views(entries@) =~= entry_views(before).push((workstream@, Some(roles@[k as int]@))));
        assert(string_views(roles@).subrange(0, k + 1) =~= string_views(roles@).subrange(0, k as int).push(
            roles@[k as int]@,
        ));
        assert(entry_views(entries@) =~= string_views(roles@).subrange(
            0,
            k + 1,
        ).map_values(|n: Seq<char>| (workstream@, Some(n))));
        k = k + 1;
    }
    assert(string_views(roles@).subrange(0, roles@.len() as int) =~= string_views(roles@));
    Ok(ScheduleMatrix { entries })
}

/// The first schedule listed for a workstream.
pub open spec fn schedule_for(ws: Seq<(String, Schedule)>, name: Seq<char>) -> Option<Schedule>
    decreases ws.len(),
{
    if ws.len() == 0 {
        None
    } else if ws[0].0@ == name {
        Some(ws[0].1)
    } else {
        schedule_for(ws.drop_first(), name)
    }
}

fn find_schedule<'a>(ws: &'a Vec<(String, Schedule)>, name: &str) -> (r: Option<&'a Schedule>)
    ensures
        match schedule_for(ws@, name@) {
            Some(s) => r matches Some(x) && *x == s,
            None => r is None,
        },
{
    let mut k: usize = 0;
    assert(ws@.subrange(0, ws@.len() as int) =~= ws@);
    while k < ws.len()
        invariant
            k <= ws.len(),
            schedule_for(ws@, name@) == schedule_for(ws@.subrange(k as int, ws@.len() as int), name@),
        decreases ws.len() - k,
    {
        let ghost rest = ws@.subrange(k as int, ws@.len() as int);
        assert(rest.drop_first() =~= ws@.subrange(k + 1, ws@.len() as int));
        assert(rest[0] == ws@[k as int]);
        if str_eq(ws[k].0.as_str(), name) {
            return Some(&ws[k].1);
        }
        k = k + 1;
    }
    None
}

/// Export the schedule as a GitHub Actions matrix. `schedules` holds the
/// workstreams with their schedules: every workstream directory for the
/// workstreams scope, the requested workstream for the roles scope.
pub fn export(options: &ScheduleExportOptions, schedules: &Vec<(String, Schedule)>) -> (r: Result<
    ScheduleMatrix,
    AppError,
>)
    ensures
        options.scope == ScheduleExportScope::Workstreams ==> (r matches Ok(m) && matrix_view(m)
            == enabled_workstreams(schedules@).map_values(|w: Seq<char>| (w, None::<Seq<char>>))),
        options.scope == ScheduleExportScope::Roles ==> match (options.layer, options.workstream) {
            (None, _) => r matches Err(e) && e is MissingArgument,
            (Some(_), None) => r matches Err(e) && e is MissingArgument,
            (Some(layer), Some(ws)) => match schedule_for(schedules@, ws@) {
                None => r matches Err(e) && e is Validation,
                Some(s) => if !s.enabled {
                    r matches Err(e) && e is Validation
                } else {
                    match scheduled_layer(s, layer) {
                        None => r matches Err(e) && e is Validation,
                        Some(l) => r matches Ok(m) && matrix_view(m) == enabled_names(
                            role_pairs(l),
                        ).map_values(|n: Seq<char>| (ws@, Some(n))),
                    }
                },
            },
        },
{
    match options.scope {
        ScheduleExportScope::Workstreams => Ok(export_workstreams(schedules)),
        ScheduleExportScope::Roles => {
            let layer = match options.layer {
                Some(l) => l,
                None => {
                    return Err(
                        AppError::MissingArgument(
                            owned("Missing --layer for schedule export (roles scope)"),
                        ),
                    );
                },
            };
            let ws = match &options.workstream {
                Some(w) => w,
                None => {
                    return Err(
                        AppError::MissingArgument(
                            owned("Missing --workstream for schedule export (roles scope)"),
                        ),
                    );
                },
            };
            match find_schedule(schedules, ws.as_str()) {
                Some(s) => export_roles(layer, ws.as_str(), s),
                None => Err(AppError::Validation(concat3("Workstream '", ws.as_str(), "' not found"))),
            }
        },
    }
}


// ---- role selection ----

/// What a run's role selection starts from.
pub struct RoleSelectionInput<'a> {
    pub layer: Layer,
    pub workstream: &'a str,
    /// Take the roles from the workstream's schedule (else from
    /// `requested_roles`).
    pub scheduled: bool,
    pub requested_roles: Option<&'a Vec<String>>,
    /// Whether the workstream exists.
    pub workstream_exists: bool,
    /// The workstream's schedule, loaded when `scheduled`.
    pub schedule: Option<&'a Schedule>,
    /// The roles of the layer that have a `role.yml`.
    pub existing_roles: &'a Vec<String>,
}

/// The path of a role's definition: `.jules/roles/{layer}/roles/{role}/role.yml`.
pub open spec fn role_yml_path(layer: Layer, role: Seq<char>) -> Seq<char> {
    ".jules/roles/"@ + layer_dir(layer) + "/roles/"@ + role + "/role.yml"@
}

/// The path of a role's definition file.
pub fn role_yml_path_of(layer: Layer, role: &str) -> (r: String)
    ensures
        r@ == role_yml_path(layer, role@),
{
    let mut p = concat3(".jules/roles/", layer.dir_name(), "/roles/");
    p.append(role);
    p.append("/role.yml");
    p
}

/// Role `i` of `c` is neither a repetition of an earlier one nor missing.
pub open spec fn role_ok_at(c: Seq<Seq<char>>, existing: Seq<Seq<char>>, i: int) -> bool {
    !c.subrange(0, i).contains(c[i]) && existing.contains(c[i])
}

/// The error for the first role of `c` that is repeated or missing: a
/// repetition is refused as such, a missing role as not found.
pub open spec fn first_role_problem(c: Seq<Seq<char>>, existing: Seq<Seq<char>>, e: AppError) -> bool {
    exists|i: int|
        0 <= i < c.len() && (forall|j: int| 0 <= j < i ==> #[trigger] role_ok_at(c, existing, j))
            && !role_ok_at(c, existing, i) && if c.subrange(0, i).contains(c[i]) {
            e is Validation
        } else {
            e is RoleNotFound
        }
}

/// The roles a selection proposes before they are checked, or `None` when
/// it refuses the input before that.
pub open spec fn candidate_roles(input: RoleSelectionInput) -> Option<Seq<Seq<char>>> {
    if !input.workstream_exists {
        None
    } else if input.scheduled {
        match input.schedule {
            Some(s) => if !s.enabled {
                None
            } else {
                match scheduled_layer(*s, input.layer) {
                    Some(l) => Some(enabled_names(role_pairs(l))),
                    None => None,
                }
            },
            None => None,
        }
    } else {
        match input.requested_roles {
            Some(rs) => if rs@.len() > 0 && forall|i: int|
                0 <= i < rs@.len() ==> safe_path_component(#[trigger] rs@[i]@) {
                Some(string_views(rs@))
            } else {
                None
            },
            None => None,
        }
    }
}

fn check_roles(c: &Vec<String>, layer: Layer, existing: &Vec<String>) -> (r: Result<(), AppError>)
    ensures
        r is Ok <==> forall|i: int|
            0 <= i < c@.len() ==> #[trigger] role_ok_at(string_views(c@), string_views(existing@), i),
        r matches Err(e) ==> first_role_problem(string_views(c@), string_views(existing@), e),
{
    let ghost cs = string_views(c@);
    let ghost ex = string_views(existing@);
    let mut seen: Vec<String> = Vec::new();
    let mut k: usize = 0;
    while k < c.len()
        invariant
            k <= c.len(),
            cs == string_views(c@),
            ex == string_views(existing@),
            string_views(seen@) == cs.subrange(0, k as int),
            forall|j: int| 0 <= j < k ==> #[trigger] role_ok_at(cs, ex, j),
        decreases c.len() - k,
    {
        let role = c[k].as_str();
        assert(cs[k as int] == role@);
        if contains_name(&seen, role) {
            assert(!role_ok_at(cs, ex, k as int));
            let e = AppError::Validation(concat3("Duplicate role '", role, "' specified"));
            assert(first_role_problem(cs, ex, e));
            return Err(e);
        }
        if !contains_name(existing, role) {
            assert(!role_ok_at(cs, ex, k as int));
            let mut msg = concat(layer.dir_name(), "/roles/");
            msg.append(role);
            msg.append(" (role.yml not found)");
            let e = AppError::RoleNotFound(msg);
            assert(first_role_problem(cs, ex, e));
            return Err(e);
        }
        assert(role_ok_at(cs, ex, k as int));
        let ghost before = seen@;
        seen.push(c[k].clone());
        assert(string_views(seen@) =~= string_views(before).push(cs[k as int]));
        assert(cs.subrange(0, k + 1) =~= cs.subrange(0, k as int).push(cs[k as int]));
        k = k + 1;
    }
    Ok(())
}

/// Select the roles a run executes: the enabled roles of the layer in the
/// workstream's schedule, or the requested roles (each a valid role id);
/// every role must exist and appear once.
pub fn select_roles(input: RoleSelectionInput) -> (r: Result<Vec<String>, AppError>)
    requires
        input.scheduled && input.workstream_exists ==> input.schedule is Some,
    ensures
        !input.workstream_exists ==> (r matches Err(e) && e is Validation),
        input.workstream_exists && !input.scheduled ==> (match input.requested_roles {
            None => r matches Err(e) && e is MissingArgument,
            Some(rs) => if rs@.len() == 0 {
                r matches Err(e) && e is MissingArgument
            } else if !(forall|i: int| 0 <= i < rs@.len() ==> safe_path_component(#[trigger] rs@[i]@)) {
                r matches Err(e) && e is Validation
            } else {
                true
            },
        }),
        input.workstream_exists && input.scheduled && candidate_roles(input) is None ==> (r matches Err(e)
            && e is Validation),
        candidate_roles(input) matches Some(c) ==> {
            &&& r is Ok <==> forall|i: int|
                0 <= i < c.len() ==> #[trigger] role_ok_at(c, string_views(input.existing_roles@), i)
            &&& r matches Ok(v) ==> string_views(v@) == c
            &&& r matches Err(e) ==> first_role_problem(c, string_views(input.existing_roles@), e)
        },
{
    if !input.workstream_exists {
        return Err(AppError::Validation(concat3("Workstream '", input.workstream, "' not found")));
    }
    let roles: Vec<String> = if input.scheduled {
        let schedule = match input.schedule {
            Some(s) => s,
            None => {
                return Err(AppError::Validation(owned("Workstream schedule is missing")));
            },
        };
        if !schedule.enabled {
            return Err(
                AppError::Validation(
                    concat3("Workstream '", input.workstream, "' is disabled in scheduled.toml"),
                ),
            );
        }
        match input.layer {
            Layer::Observers => schedule.observers.enabled_roles(),
            Layer::Decider => schedule.deciders.enabled_roles(),
            _ => {
                return Err(
                    AppError::Validation(
                        owned("Scheduled mode is only supported for observers and deciders"),
                    ),
                );
            },
        }
    } else {
        let requested = match input.requested_roles {
            Some(rs) => rs,
            None => {
                return Err(
                    AppError::MissingArgument(owned("Manual mode requires at least one --role value")),
                );
            },
        };
        if requested.len() == 0 {
            return Err(
                AppError::MissingArgument(owned("Manual mode requires at least one --role value")),
            );
        }
        let mut out: Vec<String> = Vec::new();
        let mut k: usize = 0;
        while k < requested.len()
            invariant
                k <= requested.len(),
                input.workstream_exists,
                !input.scheduled,
                input.requested_roles == Some(requested),
                out@ == requested@.subrange(0, k as int),
                forall|i: int| 0 <= i < k ==> safe_path_component(#[trigger] requested@[i]@),
            decreases requested.len() - k,
        {
            if !validate_safe_path_component(requested[k].as_str()) {
                assert(!safe_path_component(requested@[k as int]@));
                assert(input.requested_roles matches Some(rs) ==> rs@ == requested@);
                assert(!(forall|i: int|
                    0 <= i < requested@.len() ==> safe_path_component(#[trigger] requested@[i]@)));
                assert(candidate_roles(input) is None);
                return Err(
                    AppError::Validation(
                        concat3(
                            "Invalid role '",
                            requested[k].as_str(),
                            "': must be alphanumeric with hyphens or underscores only",
                        ),
                    ),
                );
            }
            out.push(requested[k].clone());
            assert(out@ =~= requested@.subrange(0, k + 1));
            k = k + 1;
        }
        assert(requested@.subrange(0, requested@.len() as int) =~= requested@);
        out
    };
    assert(candidate_roles(input) == Some(string_views(roles@)));
    match check_roles(&roles, input.layer, input.existing_roles) {
        Ok(()) => Ok(roles),
        Err(e) => Err(e),
    }
}


/// The enabled innovator personas of a schedule; none when the schedule
/// could not be loaded (`None`) or lists no innovators.
pub fn resolve_innovator_personas(schedule: Option<&Schedule>) -> (r: Vec<String>)
    ensures
        string_views(r@) == match schedule {
            Some(s) => match s.innovators {
                Some(l) => enabled_names(role_pairs(l)),
                None => Seq::<Seq<char>>::empty(),
            },
            None => Seq::<Seq<char>>::empty(),
        },
{
    match schedule {
        Some(s) => match &s.innovators {
            Some(l) => l.enabled_roles(),
            None => {
                let v: Vec<String> = Vec::new();
                assert(string_views(v@) =~= Seq::<Seq<char>>::empty());
                v
            },
        },
        None => {
            let v: Vec<String> = Vec::new();
            assert(string_views(v@) =~= Seq::<Seq<char>>::empty());
            v
        },
    }
}


/// Check the arguments of a multi-role run (observers, deciders): a
/// workstream is required, and the roles come either from the schedule or
/// from `--role`, never both and never neither.
pub fn check_multi_role_args<'a>(workstream: Option<&'a str>, scheduled: bool, roles_given: bool) -> (r: Result<&'a str, AppError>)
    ensures
        workstream is None ==> (r matches Err(e) && e is MissingArgument),
        workstream matches Some(w) ==> if scheduled == roles_given {
            r matches Err(e) && e is Validation
        } else {
            r matches Ok(x) && x@ == w@
        },
{
    let ws = match workstream {
        Some(w) => w,
        None => {
            return Err(AppError::MissingArgument(owned("Workstream is required for observers and deciders")));
        },
    };
    if scheduled && roles_given {
        return Err(AppError::Validation(owned("Cannot combine --scheduled with --role")));
    }
    if !scheduled && !roles_given {
        return Err(AppError::Validation(owned("Manual mode requires --role (or use --scheduled)")));
    }
    Ok(ws)
}

} // verus!
