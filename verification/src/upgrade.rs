//! The `update` and `upgrade` commands: advance the control plane's version
//! pin and create the control-plane files it lacks, never overwriting one.

use vstd::prelude::*;
use crate::data::{get, get_text, parse_toml, toml_tree};
use crate::error::AppError;
use crate::manifest::Manifest;
use crate::text::{owned, str_eq, string_views, trim, trim_str};
use crate::version::{compare_versions, parse_version, version_order, version_parts};

verus! {

/// Options for the upgrade command.
#[derive(Debug)]
pub struct UpgradeOptions {
    /// Show planned changes without applying.
    pub prompt_preview: bool,
}

impl Default for UpgradeOptions {
    fn default() -> (r: Self)
        ensures
            !r.prompt_preview,
    {
        UpgradeOptions { prompt_preview: false }
    }
}

/// Result of an upgrade.
#[derive(Debug)]
pub struct UpgradeResult {
    /// Files that were created (missing skeleton files filled in).
    pub created: Vec<String>,
    /// Files that were updated (kept for the output's shape; always empty).
    pub updated: Vec<String>,
    /// Whether the workflow scaffold was refreshed.
    pub workflow_refreshed: bool,
    /// Whether this was a prompt preview.
    pub prompt_preview: bool,
    /// The version the control plane was pinned to before.
    pub previous_version: String,
    /// Non-fatal warnings.
    pub warnings: Vec<String>,
}

/// Options for the update command.
#[derive(Debug)]
pub struct UpdateOptions {
    /// Show planned changes without applying.
    pub prompt_preview: bool,
}

impl Default for UpdateOptions {
    fn default() -> (r: Self)
        ensures
            !r.prompt_preview,
    {
        UpdateOptions { prompt_preview: false }
    }
}

/// Result of an update.
#[derive(Debug)]
pub struct UpdateResult {
    /// Files that were created (missing user intent files filled in).
    pub created: Vec<String>,
    /// Files that were updated (managed defaults refreshed).
    pub updated: Vec<String>,
    /// Whether the workflow scaffold was refreshed.
    pub workflow_refreshed: bool,
    /// Whether this was a prompt preview.
    pub prompt_preview: bool,
    /// The version the control plane was pinned to before.
    pub previous_version: String,
    /// Non-fatal warnings.
    pub warnings: Vec<String>,
}

/// The path of the control plane's version pin.
pub open spec fn version_pin_path() -> Seq<char> {
    ".jlo/.jlo-version"@
}

/// What an upgrade (or update) will do.
#[derive(Debug)]
pub struct UpgradePlan {
    /// Skeleton files to create, with their content, in skeleton order.
    pub to_create: Vec<(String, String)>,
    /// `1` when the binary is newer than the pin, `0` when equal.
    pub version_sign: i32,
    /// The version the control plane is pinned to.
    pub previous_version: String,
}

/// The skeleton files an upgrade creates: those that do not exist, except
/// the version pin, in skeleton order.
pub open spec fn files_to_create(skeleton: Seq<(String, String)>, present: Seq<bool>) -> Seq<(Seq<char>, Seq<char>)>
    decreases skeleton.len(),
{
    if skeleton.len() == 0 || present.len() != skeleton.len() {
        seq![]
    } else {
        let rest = files_to_create(skeleton.drop_last(), present.drop_last());
        if skeleton.last().0@ != version_pin_path() && !present.last() {
            rest.push((skeleton.last().0@, skeleton.last().1@))
        } else {
            rest
        }
    }
}

pub open spec fn pair_views(v: Seq<(String, String)>) -> Seq<(Seq<char>, Seq<char>)> {
    v.map_values(|p: (String, String)| (p.0@, p.1@))
}

/// Plan an upgrade of the control plane.
///
/// `version_file` is the content of `.jlo/.jlo-version` (`None` when it
/// cannot be read); `skeleton` lists the control-plane skeleton files with
/// their default content and `present[i]` tells whether the `i`-th exists.
pub fn plan_upgrade(
    jlo_exists: bool,
    version_file: Option<&str>,
    binary_version: &str,
    skeleton: &Vec<(String, String)>,
    present: &Vec<bool>,
) -> (r: Result<UpgradePlan, AppError>)
    requires
        present.len() == skeleton.len(),
    ensures
        !jlo_exists ==> (r matches Err(e) && e is Validation),
        jlo_exists && version_file is None ==> (r matches Err(e) && e is WorkspaceIntegrity),
        jlo_exists ==> (version_file matches Some(c) ==> {
            let sign = version_order(version_parts(binary_version@), version_parts(trim(c@)), 0);
            if sign < 0 {
                r matches Err(AppError::WorkspaceVersionMismatch { workspace, binary })
                    && workspace@ == trim(c@) && binary@ == binary_version@
            } else {
                r matches Ok(p) && p.version_sign == sign && p.previous_version@ == trim(c@)
                    && pair_views(p.to_create@) == files_to_create(skeleton@, present@)
            }
        }),
{
    if !jlo_exists {
        return Err(AppError::Validation(owned("No .jlo/ control plane found. Run 'jlo init' first.")));
    }
    let workspace_version = match version_file {
        Some(c) => owned(trim_str(c)),
        None => {
            return Err(
                AppError::WorkspaceIntegrity(
                    owned("Missing .jlo/.jlo-version file. Cannot update without version marker."),
                ),
            );
        },
    };
    let binary_parts = parse_version(binary_version);
    let workspace_parts = parse_version(workspace_version.as_str());
    let version_sign = compare_versions(binary_parts.as_slice(), workspace_parts.as_slice());
    if version_sign < 0 {
        return Err(
            AppError::WorkspaceVersionMismatch {
                workspace: workspace_version,
                binary: owned(binary_version),
            },
        );
    }
    let mut to_create: Vec<(String, String)> = Vec::new();
    let mut k: usize = 0;
    assert(skeleton@.subrange(0, 0) =~= Seq::<(String, String)>::empty());
    while k < skeleton.len()
        invariant
            k <= skeleton.len(),
            present.len() == skeleton.len(),
            pair_views(to_create@) == files_to_create(
                skeleton@.subrange(0, k as int),
                present@.subrange(0, k as int),
            ),
        decreases skeleton.len() - k,
    {
        assert(skeleton@.subrange(0, k + 1).drop_last() =~= skeleton@.subrange(0, k as int));
        assert(present@.subrange(0, k + 1).drop_last() =~= present@.subrange(0, k as int));
        let path = &skeleton[k].0;
        proof {
            reveal_strlit(".jlo/.jlo-version");
        }
        if !str_eq(path.as_str(), ".jlo/.jlo-version") && !present[k] {
            let ghost before = to_create@;
            to_create.push((path.clone(), skeleton[k].1.clone()));
            assert(pair_views(to_create@) =~= pair_views(before).push(
                (skeleton@[k as int].0@, skeleton@[k as int].1@),
            ));
        }
        k = k + 1;
    }
    assert(skeleton@.subrange(0, skeleton@.len() as int) =~= skeleton@);
    assert(present@.subrange(0, present@.len() as int) =~= present@);
    Ok(UpgradePlan { to_create, version_sign, previous_version: workspace_version })
}

/// An upgrade never overwrites: every file it creates is a skeleton file
/// that does not exist yet, and the version pin is never among them.
pub proof fn lemma_upgrade_never_overwrites(skeleton: Seq<(String, String)>, present: Seq<bool>, i: int)
    requires
        present.len() == skeleton.len(),
        0 <= i < files_to_create(skeleton, present).len(),
    ensures
        files_to_create(skeleton, present)[i].0 != version_pin_path(),
        exists|j: int|
            0 <= j < skeleton.len() && !present[j] && #[trigger] skeleton[j].0@ == files_to_create(
                skeleton,
                present,
            )[i].0 && skeleton[j].1@ == files_to_create(skeleton, present)[i].1,
    decreases skeleton.len(),
{
    let rest = files_to_create(skeleton.drop_last(), present.drop_last());
    let n = skeleton.len() - 1;
    if i < rest.len() {
        lemma_upgrade_never_overwrites(skeleton.drop_last(), present.drop_last(), i);
        let j = choose|j: int|
            0 <= j < skeleton.drop_last().len() && !present.drop_last()[j]
                && #[trigger] skeleton.drop_last()[j].0@ == rest[i].0 && skeleton.drop_last()[j].1@
                == rest[i].1;
        assert(skeleton[j] == skeleton.drop_last()[j]);
    } else {
        assert(skeleton[n].0@ == files_to_create(skeleton, present)[i].0);
    }
}

/// The workflow files whose presence shows a managed workflow scaffold.
pub open spec fn managed_workflow_files() -> Seq<Seq<char>> {
    seq![
        ".github/workflows/jules-scheduled-workflows.yml"@,
        ".github/workflows/jules-workflows.yml"@,
        ".github/workflows/jules-sync.yml"@,
        ".github/workflows/jules-automerge.yml"@,
        ".github/workflows/jules-implementer-pr.yml"@,
        ".github/workflows/jules-integrator-pr.yml"@,
    ]
}

/// The workflow files whose presence shows a managed workflow scaffold.
pub fn managed_workflow_paths() -> (r: Vec<&'static str>)
    ensures
        crate::text::views(r@) == managed_workflow_files(),
{
    let r = vec![
        ".github/workflows/jules-scheduled-workflows.yml",
        ".github/workflows/jules-workflows.yml",
        ".github/workflows/jules-sync.yml",
        ".github/workflows/jules-automerge.yml",
        ".github/workflows/jules-implementer-pr.yml",
        ".github/workflows/jules-integrator-pr.yml",
    ];
    assert(crate::text::views(r@) =~= managed_workflow_files());
    r
}

/// Whether the workflow scaffold is configured (and so refreshed by an
/// upgrade): `present[i]` tells whether the `i`-th managed workflow file
/// exists, and any one of them suffices.
pub fn configured_workflow_mode(present: &Vec<bool>) -> (r: bool)
    ensures
        r == exists|i: int| 0 <= i < present.len() && present@[i],
{
    let mut k: usize = 0;
    while k < present.len()
        invariant
            k <= present.len(),
            forall|i: int| 0 <= i < k ==> !present@[i],
        decreases present.len() - k,
    {
        if present[k] {
            return true;
        }
        k = k + 1;
    }
    false
}

/// The error for a workflow scaffold without a configured runner mode.
pub open spec fn missing_runner_mode_message() -> Seq<char> {
    "Missing workflow.runner_mode in .jlo/config.toml"@
}

/// The `workflow.runner_mode` of a `.jlo/config.toml` document, if it is a
/// string.
pub open spec fn runner_mode_of(config: Seq<char>) -> Option<Seq<char>> {
    match toml_tree(config) {
        Ok(doc) => match get(doc, "workflow"@) {
            Some(w) => get_text(w, "runner_mode"@),
            None => None,
        },
        Err(_) => None,
    }
}

/// The runner mode an upgrade refreshes the workflow scaffold with: none
/// where no managed workflow file exists (`present[i]` for the `i`-th);
/// otherwise `workflow.runner_mode` of `.jlo/config.toml` (`config`, `None`
/// when the file is missing), which must be set: an upgrade is refused
/// without it.
pub fn workflow_refresh_mode(present: &Vec<bool>, config: Option<&str>) -> (r: Result<Option<String>, AppError>)
    ensures
        !(exists|i: int| 0 <= i < present.len() && present@[i]) ==> r == Ok::<Option<String>, AppError>(None),
        (exists|i: int| 0 <= i < present.len() && present@[i]) ==> match config {
            Some(c) => match toml_tree(c@) {
                Err(e) => r matches Err(AppError::RunConfigInvalid(m)) && m@ == e,
                Ok(_) => match runner_mode_of(c@) {
                    Some(mode) => r matches Ok(Some(x)) && x@ == mode,
                    None => r matches Err(AppError::ConfigError(m)) && m@ == missing_runner_mode_message(),
                },
            },
            None => r matches Err(AppError::ConfigError(m)) && m@ == missing_runner_mode_message(),
        },
{
    if !configured_workflow_mode(present) {
        return Ok(None);
    }
    let missing = owned("Missing workflow.runner_mode in .jlo/config.toml");
    let text = match config {
        Some(c) => c,
        None => {
            return Err(AppError::ConfigError(missing));
        },
    };
    let doc = match parse_toml(text) {
        Ok(d) => d,
        Err(e) => {
            return Err(AppError::RunConfigInvalid(e));
        },
    };
    match doc.get("workflow") {
        Some(w) => match w.get_text("runner_mode") {
            Some(mode) => Ok(Some(owned(mode))),
            None => Err(AppError::ConfigError(missing)),
        },
        None => Err(AppError::ConfigError(missing)),
    }
}

/// The result an upgrade reports for its plan.
pub fn upgrade_result(plan: UpgradePlan, workflow_refreshed: bool, prompt_preview: bool) -> (r: UpgradeResult)
    ensures
        string_views(r.created@) == pair_views(plan.to_create@).map_values(|p: (Seq<char>, Seq<char>)| p.0),
        r.updated@.len() == 0,
        r.workflow_refreshed == workflow_refreshed,
        r.prompt_preview == prompt_preview,
        r.previous_version@ == plan.previous_version@,
        r.warnings@.len() == 0,
{
    let mut created: Vec<String> = Vec::new();
    let mut k: usize = 0;
    while k < plan.to_create.len()
        invariant
            k <= plan.to_create.len(),
            string_views(created@) == pair_views(plan.to_create@).subrange(0, k as int).map_values(
                |p: (Seq<char>, Seq<char>)| p.0,
            ),
        decreases plan.to_create.len() - k,
    {
        let ghost before = created@;
        created.push(plan.to_create[k].0.clone());
        assert(string_views(created@) =~= string_views(before).push(plan.to_create@[k as int].0@));
        assert(pair_views(plan.to_create@).subrange(0, k + 1) =~= pair_views(plan.to_create@).subrange(
            0,
            k as int,
        ).push((plan.to_create@[k as int].0@, plan.to_create@[k as int].1@)));
        assert(string_views(created@) =~= pair_views(plan.to_create@).subrange(0, k + 1).map_values(
            |p: (Seq<char>, Seq<char>)| p.0,
        ));
        k = k + 1;
    }
    assert(pair_views(plan.to_create@).subrange(0, plan.to_create@.len() as int) =~= pair_views(
        plan.to_create@,
    ));
    UpgradeResult {
        created,
        updated: Vec::new(),
        workflow_refreshed,
        prompt_preview,
        previous_version: plan.previous_version,
        warnings: Vec::new(),
    }
}

/// What an update does with one managed entity file and the manifest entry
/// that records its default's hash.
#[derive(Debug, Clone, PartialEq, Eq)]
pub enum ManifestChange {
    Keep,
    Remove,
    Record(String),
}

/// The update's decision for one entity file: whether to rewrite it with
/// its default, and what to do with its manifest entry.
///
/// A file the manifest records unchanged (its hash is the stored one) is
/// managed: it is refreshed to the current default, and the record follows
/// the default. A file whose hash differs from the record was customized:
/// it stops being managed. A file with no record is recorded only when it
/// already equals the default. A missing file loses its record.
pub fn refresh_entity(
    exists: bool,
    current: &str,
    default: &str,
    current_hash: &str,
    default_hash: &str,
    stored_hash: Option<&str>,
) -> (r: (bool, ManifestChange))
    ensures
        !exists ==> r.0 == false && (if stored_hash is Some {
            r.1 == ManifestChange::Remove
        } else {
            r.1 == ManifestChange::Keep
        }),
        exists ==> match stored_hash {
            Some(h) => if h@ == current_hash@ {
                r.0 == (current@ != default@) && if h@ != default_hash@ {
                    r.1 matches ManifestChange::Record(x) && x@ == default_hash@
                } else {
                    r.1 == ManifestChange::Keep
                }
            } else {
                r.0 == false && r.1 == ManifestChange::Remove
            },
            None => r.0 == false && if current@ == default@ {
                r.1 matches ManifestChange::Record(x) && x@ == default_hash@
            } else {
                r.1 == ManifestChange::Keep
            },
        },
{
    if !exists {
        return match stored_hash {
            Some(_) => (false, ManifestChange::Remove),
            None => (false, ManifestChange::Keep),
        };
    }
    match stored_hash {
        Some(h) => {
            if str_eq(h, current_hash) {
                let update = !str_eq(current, default);
                if !str_eq(h, default_hash) {
                    (update, ManifestChange::Record(owned(default_hash)))
                } else {
                    (update, ManifestChange::Keep)
                }
            } else {
                (false, ManifestChange::Remove)
            }
        },
        None => {
            if str_eq(current, default) {
                (false, ManifestChange::Record(owned(default_hash)))
            } else {
                (false, ManifestChange::Keep)
            }
        },
    }
}


/// A managed control-plane entity file as the update finds it.
#[derive(Debug, Clone)]
pub struct EntityFile {
    pub path: String,
    /// Its current default content and that content's hash.
    pub default_content: String,
    pub default_hash: String,
    /// Whether it exists, and if so its content and that content's hash.
    pub exists: bool,
    pub current_content: String,
    pub current_hash: String,
}

/// The manifest and the update's decision after one entity file: its new
/// map, whether the file is rewritten with its default, and whether the map
/// changed.
pub open spec fn refresh_step(m: Map<Seq<char>, Seq<char>>, e: EntityFile) -> (Map<Seq<char>, Seq<char>>, bool, bool) {
    let p = e.path@;
    if !e.exists {
        if m.dom().contains(p) {
            (m.remove(p), false, true)
        } else {
            (m, false, false)
        }
    } else if m.dom().contains(p) {
        if m[p] == e.current_hash@ {
            let update = e.current_content@ != e.default_content@;
            if m[p] != e.default_hash@ {
                (m.insert(p, e.default_hash@), update, true)
            } else {
                (m, update, false)
            }
        } else {
            (m.remove(p), false, true)
        }
    } else if e.current_content@ == e.default_content@ {
        (m.insert(p, e.default_hash@), false, true)
    } else {
        (m, false, false)
    }
}

/// The manifest, the files to rewrite (path and default content, in
/// order), and whether the manifest changed, after all entity files.
pub open spec fn refresh_all(m: Map<Seq<char>, Seq<char>>, es: Seq<EntityFile>) -> (Map<Seq<char>, Seq<char>>, Seq<(Seq<char>, Seq<char>)>, bool)
    decreases es.len(),
{
    if es.len() == 0 {
        (m, seq![], false)
    } else {
        let prev = refresh_all(m, es.drop_last());
        let step = refresh_step(prev.0, es.last());
        (
            step.0,
            if step.1 {
                prev.1.push((es.last().path@, es.last().default_content@))
            } else {
                prev.1
            },
            prev.2 || step.2,
        )
    }
}

/// What an update will do.
#[derive(Debug)]
pub struct UpdatePlan {
    /// The skeleton files to create and the version comparison.
    pub base: UpgradePlan,
    /// Managed files to rewrite with their defaults.
    pub to_update: Vec<(String, String)>,
    /// The manifest after the update.
    pub manifest: Manifest,
    /// Whether the manifest must be written.
    pub manifest_changed: bool,
    pub warnings: Vec<String>,
}

/// Plan an update of the control plane: the upgrade's plan, plus the
/// refresh of the managed entity files that the manifest records (see
/// `refresh_entity`). `manifest` is `None` when `.jlo-managed.yml` does not
/// exist; the update then starts from an empty manifest and warns.
pub fn plan_update(
    jlo_exists: bool,
    version_file: Option<&str>,
    binary_version: &str,
    skeleton: &Vec<(String, String)>,
    present: &Vec<bool>,
    entities: &Vec<EntityFile>,
    manifest: Option<Manifest>,
) -> (r: Result<UpdatePlan, AppError>)
    requires
        present.len() == skeleton.len(),
    ensures
        !jlo_exists ==> (r matches Err(e) && e is Validation),
        jlo_exists && version_file is None ==> (r matches Err(e) && e is WorkspaceIntegrity),
        jlo_exists ==> (version_file matches Some(c) ==> {
            let sign = version_order(version_parts(binary_version@), version_parts(trim(c@)), 0);
            if sign < 0 {
                r matches Err(AppError::WorkspaceVersionMismatch { workspace, binary })
                    && workspace@ == trim(c@) && binary@ == binary_version@
            } else {
                r matches Ok(p) && {
                    let start = match manifest {
                        Some(m) => m@,
                        None => Map::<Seq<char>, Seq<char>>::empty(),
                    };
                    let done = refresh_all(start, entities@);
                    &&& p.base.version_sign == sign
                    &&& p.base.previous_version@ == trim(c@)
                    &&& pair_views(p.base.to_create@) == files_to_create(skeleton@, present@)
                    &&& p.manifest@ == done.0
                    &&& pair_views(p.to_update@) == done.1
                    &&& p.manifest_changed == done.2
                    &&& p.warnings@.len() == (if manifest is None {
                        1int
                    } else {
                        0int
                    })
                }
            }
        }),
{
    let base = match plan_upgrade(jlo_exists, version_file, binary_version, skeleton, present) {
        Ok(b) => b,
        Err(e) => {
            return Err(e);
        },
    };
    let mut warnings: Vec<String> = Vec::new();
    let ghost start = match &manifest {
        Some(m) => m@,
        None => Map::<Seq<char>, Seq<char>>::empty(),
    };
    let mut map = match manifest {
        Some(m) => m,
        None => {
            warnings.push(
                owned(
                    "Missing .jlo-managed.yml; defaults will only be recorded when files already match current embedded templates.",
                ),
            );
            Manifest::new()
        },
    };
    let mut to_update: Vec<(String, String)> = Vec::new();
    let mut changed = false;
    let mut k: usize = 0;
    assert(entities@.subrange(0, 0) =~= Seq::<EntityFile>::empty());
    while k < entities.len()
        invariant
            k <= entities.len(),
            ({
                let done = refresh_all(start, entities@.subrange(0, k as int));
                map@ == done.0 && pair_views(to_update@) == done.1 && changed == done.2
            }),
        decreases entities.len() - k,
    {
        let e = &entities[k];
        assert(entities@.subrange(0, k + 1).drop_last() =~= entities@.subrange(0, k as int));
        assert(entities@.subrange(0, k + 1).last() == entities@[k as int]);
        let ghost m0 = map@;
        let stored: Option<String> = match map.get(e.path.as_str()) {
            Some(h) => Some(owned(h)),
            None => None,
        };
        let (update, change) = refresh_entity(
            e.exists,
            e.current_content.as_str(),
            e.default_content.as_str(),
            e.current_hash.as_str(),
            e.default_hash.as_str(),
            match &stored {
                Some(h) => Some(h.as_str()),
                None => None,
            },
        );
        match change {
            ManifestChange::Keep => {},
            ManifestChange::Remove => {
                map.remove(e.path.as_str());
                changed = true;
            },
            ManifestChange::Record(h) => {
                map.insert(e.path.as_str(), h.as_str());
                changed = true;
            },
        }
        if update {
            let ghost before = to_update@;
            to_update.push((e.path.clone(), e.default_content.clone()));
            assert(pair_views(to_update@) =~= pair_views(before).push((e.path@, e.default_content@)));
        }
        proof {
            let step = refresh_step(m0, entities@[k as int]);
            assert(map@ =~= step.0);
            assert(update == step.1);
        }
        k = k + 1;
    }
    assert(entities@.subrange(0, entities@.len() as int) =~= entities@);
    Ok(UpdatePlan { base, to_update, manifest: map, manifest_changed: changed, warnings })
}


/// An update rewrites only what it manages unchanged: a file is refreshed
/// only when it exists and its content still has the hash the manifest
/// recorded for it; deleted and customized files are left alone.
pub proof fn lemma_update_refreshes_only_unmodified(m: Map<Seq<char>, Seq<char>>, es: Seq<EntityFile>, i: int)
    requires
        0 <= i < refresh_all(m, es).1.len(),
    ensures
        exists|j: int|
            0 <= j < es.len() && #[trigger] es[j].path@ == refresh_all(m, es).1[i].0 && es[j].exists
                && es[j].default_content@ == refresh_all(m, es).1[i].1 && ({
                let before = refresh_all(m, es.subrange(0, j)).0;
                before.dom().contains(es[j].path@) && before[es[j].path@] == es[j].current_hash@
            }),
    decreases es.len(),
{
    let pre = es.drop_last();
    let prev = refresh_all(m, pre);
    let n = es.len() - 1;
    assert(es.subrange(0, n) =~= pre);
    if i < prev.1.len() {
        lemma_update_refreshes_only_unmodified(m, pre, i);
        let j = choose|j: int|
            0 <= j < pre.len() && #[trigger] pre[j].path@ == prev.1[i].0 && pre[j].exists
                && pre[j].default_content@ == prev.1[i].1 && ({
                let before = refresh_all(m, pre.subrange(0, j)).0;
                before.dom().contains(pre[j].path@) && before[pre[j].path@] == pre[j].current_hash@
            });
        assert(es[j] == pre[j]);
        assert(es.subrange(0, j) =~= pre.subrange(0, j));
    } else {
        assert(es[n].path@ == refresh_all(m, es).1[i].0);
    }
}


/// Whether `r` reports `plan`: the files it creates and the managed files
/// it refreshes, its previous version and its warnings.
pub open spec fn reports_update(plan: UpdatePlan, r: UpdateResult) -> bool {
    &&& string_views(r.created@) == pair_views(plan.base.to_create@).map_values(
        |p: (Seq<char>, Seq<char>)| p.0,
    )
    &&& string_views(r.updated@) == pair_views(plan.to_update@).map_values(|p: (Seq<char>, Seq<char>)| p.0)
    &&& r.previous_version@ == plan.base.previous_version@
    &&& r.warnings@ == plan.warnings@
}

/// An update's preview lists the same files to create and to refresh as the
/// update itself: both report the same plan.
pub proof fn lemma_update_preview_lists_match(plan: UpdatePlan, preview: UpdateResult, applied: UpdateResult)
    requires
        reports_update(plan, preview),
        reports_update(plan, applied),
    ensures
        string_views(preview.created@) == string_views(applied.created@),
        string_views(preview.updated@) == string_views(applied.updated@),
        preview.previous_version@ == applied.previous_version@,
{
}

/// The result an update reports for its plan, whether it previews or not.
pub fn update_result(plan: UpdatePlan, workflow_refreshed: bool, prompt_preview: bool) -> (r: UpdateResult)
    ensures
        reports_update(plan, r),
        r.workflow_refreshed == workflow_refreshed,
        r.prompt_preview == prompt_preview,
{
    let mut updated: Vec<String> = Vec::new();
    let mut k: usize = 0;
    while k < plan.to_update.len()
        invariant
            k <= plan.to_update.len(),
            string_views(updated@) == pair_views(plan.to_update@).subrange(0, k as int).map_values(
                |p: (Seq<char>, Seq<char>)| p.0,
            ),
        decreases plan.to_update.len() - k,
    {
        let ghost before = updated@;
        updated.push(plan.to_update[k].0.clone());
        assert(string_views(updated@) =~= string_views(before).push(plan.to_update@[k as int].0@));
        assert(pair_views(plan.to_update@).subrange(0, k + 1) =~= pair_views(plan.to_update@).subrange(
            0,
            k as int,
        ).push((plan.to_update@[k as int].0@, plan.to_update@[k as int].1@)));
        assert(string_views(updated@) =~= pair_views(plan.to_update@).subrange(0, k + 1).map_values(
            |p: (Seq<char>, Seq<char>)| p.0,
        ));
        k = k + 1;
    }
    assert(pair_views(plan.to_update@).subrange(0, plan.to_update@.len() as int) =~= pair_views(
        plan.to_update@,
    ));
    let base = upgrade_result(plan.base, workflow_refreshed, prompt_preview);
    UpdateResult {
        created: base.created,
        updated,
        workflow_refreshed,
        prompt_preview,
        previous_version: base.previous_version,
        warnings: plan.warnings,
    }
}

} // verus!
