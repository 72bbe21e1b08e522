//! Mock runs: their configuration (tag, branch prefixes, issue labels) and
//! the names, identifiers and file contents a mock run derives from it.

use vstd::prelude::*;
use crate::config::ExecutionConfig;
use crate::data::{DataValue, get, json_tree, parse_json, table_keys};
use crate::error::AppError;
use crate::layer::{Layer, layer_dir};
use crate::mock::{extract_branch_prefix, first_branch_prefix};
use crate::path::{file_name, path_file_name};
use crate::text::{
    concat, concat3, lines, owned, str_eq, strip_prefix, strip_prefix_str, strip_suffix,
    strip_suffix_str, string_views,
};

verus! {

/// Configuration of a mock run.
#[derive(Debug, Clone)]
pub struct MockConfig {
    /// Tag that names this run's branches, files and PRs.
    pub mock_tag: String,
    /// Branch prefix per layer, from the layers' `contracts.yml`; no layer
    /// appears twice.
    pub branch_prefixes: Vec<(Layer, String)>,
    /// Branch that implementer work targets.
    pub default_branch: String,
    /// Branch the Jules workflow runs on.
    pub jules_branch: String,
    /// Issue labels, from `github-labels.json`.
    pub issue_labels: Vec<String>,
}

/// The prefix a list of (layer, prefix) pairs gives a layer: that of its
/// first pair.
pub open spec fn prefix_of(ps: Seq<(Layer, String)>, layer: Layer) -> Option<Seq<char>>
    decreases ps.len(),
{
    if ps.len() == 0 {
        None
    } else if ps[0].0 == layer {
        Some(ps[0].1@)
    } else {
        prefix_of(ps.drop_first(), layer)
    }
}

/// No layer has two prefixes.
pub open spec fn layers_distinct(ps: Seq<(Layer, String)>) -> bool {
    forall|i: int, j: int| 0 <= i < j < ps.len() ==> ps[i].0 != ps[j].0
}

impl MockConfig {
    /// Well-formedness: each layer has at most one branch prefix.
    pub open spec fn wf(&self) -> bool {
        layers_distinct(self.branch_prefixes@)
    }

    /// The branch prefix configured for `layer`.
    pub fn branch_prefix(&self, layer: Layer) -> (r: Result<&str, AppError>)
        ensures
            match prefix_of(self.branch_prefixes@, layer) {
                Some(p) => r matches Ok(x) && x@ == p,
                None => r matches Err(e) && e is InvalidConfig,
            },
    {
        let ps = &self.branch_prefixes;
        let mut k: usize = 0;
        assert(ps@.subrange(0, ps@.len() as int) =~= ps@);
        while k < ps.len()
            invariant
                k <= ps.len(),
                ps@ == self.branch_prefixes@,
                prefix_of(ps@, layer) == prefix_of(ps@.subrange(k as int, ps@.len() as int), layer),
            decreases ps.len() - k,
        {
            let ghost rest = ps@.subrange(k as int, ps@.len() as int);
            assert(rest.drop_first() =~= ps@.subrange(k + 1, ps@.len() as int));
            assert(rest[0] == ps@[k as int]);
            if ps[k].0 == layer {
                return Ok(ps[k].1.as_str());
            }
            k = k + 1;
        }
        Err(
            AppError::InvalidConfig(
                concat3("Missing branch_prefix for layer '", layer.dir_name(), "' in mock configuration"),
            ),
        )
    }

    /// Name of a mock branch for `layer`: the layer's prefix, the mock tag,
    /// a hyphen and the timestamp.
    pub fn branch_name(&self, layer: Layer, timestamp: &str) -> (r: Result<String, AppError>)
        ensures
            match prefix_of(self.branch_prefixes@, layer) {
                Some(p) => r matches Ok(x) && x@ == p + self.mock_tag@ + "-"@ + timestamp@,
                None => r matches Err(e) && e is InvalidConfig,
            },
    {
        let prefix = self.branch_prefix(layer)?;
        let mut name = concat(prefix, self.mock_tag.as_str());
        name.append("-");
        name.append(timestamp);
        Ok(name)
    }
}

/// Check the prerequisites of a mock run, in order: a `GH_TOKEN`, then the
/// `git` and `gh` tools.
pub fn validate_mock_prerequisites(gh_token_set: bool, git_available: bool, gh_available: bool) -> (r:
    Result<(), AppError>)
    ensures
        r is Ok <==> gh_token_set && git_available && gh_available,
        !gh_token_set ==> (r matches Err(e) && e is MissingArgument),
        gh_token_set && !git_available ==> (r matches Err(e) && e matches AppError::ExternalToolError {
            tool,
            ..
        } && tool@ == "git"@),
        gh_token_set && git_available && !gh_available ==> (r matches Err(e)
            && e matches AppError::ExternalToolError { tool, .. } && tool@ == "gh"@),
{
    if !gh_token_set {
        return Err(
            AppError::MissingArgument(
                owned("Mock mode requires GH_TOKEN environment variable to be set"),
            ),
        );
    }
    if !git_available {
        return Err(
            AppError::ExternalToolError {
                tool: owned("git"),
                error: owned("git is required for mock mode but not found in PATH"),
            },
        );
    }
    if !gh_available {
        return Err(
            AppError::ExternalToolError {
                tool: owned("gh"),
                error: owned("gh CLI is required for mock mode but not found in PATH"),
            },
        );
    }
    Ok(())
}

/// The issue labels a parsed `github-labels.json` declares: the keys of its
/// `issue_labels` object, none when it has no such object.
pub open spec fn declared_labels(doc: DataValue) -> Seq<Seq<char>> {
    match get(doc, "issue_labels"@) {
        Some(v) => match table_keys(v) {
            Some(ks) => ks,
            None => seq![],
        },
        None => seq![],
    }
}

/// Extract the issue labels from the content of `github-labels.json`.
pub fn extract_issue_labels(content: &str) -> (r: Result<Vec<String>, AppError>)
    ensures
        match json_tree(content@) {
            Err(msg) => r matches Err(AppError::ParseError { what, details }) && what@
                == "github-labels.json"@ && details@ == msg,
            Ok(doc) => r matches Ok(ls) && string_views(ls@) == declared_labels(doc),
        },
{
    let doc = match parse_json(content) {
        Ok(d) => d,
        Err(msg) => {
            return Err(AppError::ParseError { what: owned("github-labels.json"), details: msg });
        },
    };
    match doc.get("issue_labels") {
        Some(v) => match v.table_keys() {
            Some(ks) => {
                assert(string_views(ks@) =~= ks@.map_values(|s: String| s@));
                Ok(ks)
            },
            None => {
                let out: Vec<String> = Vec::new();
                assert(string_views(out@) =~= Seq::<Seq<char>>::empty());
                Ok(out)
            },
        },
        None => {
            let out: Vec<String> = Vec::new();
            assert(string_views(out@) =~= Seq::<Seq<char>>::empty());
            Ok(out)
        },
    }
}

/// The layers whose `contracts.yml` a mock run reads for branch prefixes,
/// in order.
pub open spec fn mock_layer_order() -> Seq<Layer> {
    seq![
        Layer::Narrator,
        Layer::Observers,
        Layer::Decider,
        Layer::Planner,
        Layer::Implementer,
        Layer::Innovators,
        Layer::Integrator,
    ]
}

/// The layers whose `contracts.yml` a mock run reads, in order.
pub fn mock_layers() -> (r: Vec<Layer>)
    ensures
        r@ == mock_layer_order(),
{
    let r = vec![
        Layer::Narrator,
        Layer::Observers,
        Layer::Decider,
        Layer::Planner,
        Layer::Implementer,
        Layer::Innovators,
        Layer::Integrator,
    ];
    assert(r@ =~= mock_layer_order());
    r
}

/// The (layer, prefix) pairs that the contracts give, in layer order: one
/// for each layer whose contracts could be read and set a prefix.
pub open spec fn prefixes_from(layers: Seq<Layer>, contracts: Seq<Option<String>>) -> Seq<(Layer, Seq<char>)>
    decreases layers.len(),
{
    if layers.len() == 0 || contracts.len() == 0 {
        seq![]
    } else {
        let rest = prefixes_from(layers.drop_first(), contracts.drop_first());
        match contracts[0] {
            Some(c) => match first_branch_prefix(lines(c@)) {
                Some(p) => seq![(layers[0], p)] + rest,
                None => rest,
            },
            None => rest,
        }
    }
}

/// The labels used when `github-labels.json` cannot be read.
pub open spec fn default_labels() -> Seq<Seq<char>> {
    seq!["bugs"@, "feats"@, "refacts"@]
}

/// The mock tag: the one the environment sets, else `ci-` or `local-`
/// followed by the timestamp.
pub open spec fn mock_tag_of(env_tag: Option<Seq<char>>, in_ci: bool, timestamp: Seq<char>) -> Seq<char> {
    match env_tag {
        Some(t) => t,
        None => (if in_ci {
            "ci"@
        } else {
            "local"@
        }) + "-"@ + timestamp,
    }
}

pub open spec fn pair_views(ps: Seq<(Layer, String)>) -> Seq<(Layer, Seq<char>)> {
    ps.map_values(|p: (Layer, String)| (p.0, p.1@))
}

/// Load the mock configuration.
///
/// `contracts[i]` is the content of the `contracts.yml` of the `i`-th of
/// `mock_layers()`, `None` where it could not be read; `labels_json` is the
/// content of `github-labels.json`, `None` where it could not be read;
/// `env_tag` is the tag the environment sets, `in_ci` whether the run is
/// in CI, and `timestamp` the time of the run.
pub fn load_mock_config(
    run: &ExecutionConfig,
    contracts: &Vec<Option<String>>,
    labels_json: Option<&str>,
    env_tag: Option<&str>,
    in_ci: bool,
    timestamp: &str,
) -> (r: Result<MockConfig, AppError>)
    requires
        contracts.len() == mock_layer_order().len(),
    ensures
        labels_json matches Some(c) && json_tree(c@) is Err ==> (r matches Err(e) && e is ParseError),
        !(labels_json matches Some(c) && json_tree(c@) is Err) ==> (r matches Ok(m) && {
            &&& m.wf()
            &&& m.mock_tag@ == mock_tag_of(crate::text::opt_view(env_tag), in_ci, timestamp@)
            &&& pair_views(m.branch_prefixes@) == prefixes_from(mock_layer_order(), contracts@)
            &&& m.default_branch@ == run.default_branch@
            &&& m.jules_branch@ == run.jules_branch@
            &&& string_views(m.issue_labels@) == match labels_json {
                Some(c) => match json_tree(c@) {
                    Ok(doc) => declared_labels(doc),
                    Err(_) => seq![],
                },
                None => default_labels(),
            }
        }),
{
    let layers = mock_layers();
    let mut prefixes: Vec<(Layer, String)> = Vec::new();
    let mut k: usize = layers.len();
    assert(prefixes_from(mock_layer_order().subrange(7, 7), contracts@.subrange(7, 7)) =~= seq![]);
    while k > 0
        invariant
            k <= 7,
            layers@ == mock_layer_order(),
            contracts.len() == 7,
            pair_views(prefixes@) == prefixes_from(
                mock_layer_order().subrange(k as int, 7),
                contracts@.subrange(k as int, 7),
            ),
            forall|i: int| 0 <= i < prefixes@.len() ==> mock_layer_order().subrange(k as int, 7).contains(
                #[trigger] prefixes@[i].0,
            ),
            layers_distinct(prefixes@),
        decreases k,
    {
        k = k - 1;
        let ghost ls = mock_layer_order().subrange(k as int, 7);
        let ghost cs = contracts@.subrange(k as int, 7);
        let ghost tail = mock_layer_order().subrange(k + 1, 7);
        assert(ls.drop_first() =~= mock_layer_order().subrange(k + 1, 7));
        assert(cs.drop_first() =~= contracts@.subrange(k + 1, 7));
        assert(ls[0] == layers@[k as int]);
        match &contracts[k] {
            Some(c) => match extract_branch_prefix(c.as_str()) {
                Some(p) => {
                    let ghost old_prefixes = prefixes@;
                    prefixes.insert(0, (layers[k], p));
                    assert(pair_views(prefixes@) =~= seq![(layers@[k as int], p@)] + pair_views(
                        old_prefixes,
                    ));
                    assert forall|i: int| 0 <= i < old_prefixes.len() implies old_prefixes[i].0
                        != layers@[k as int] by {
                        assert(tail.contains(old_prefixes[i].0));
                    }
                    assert forall|i: int| 0 <= i < prefixes@.len() implies ls.contains(
                        #[trigger] prefixes@[i].0,
                    ) by {
                        if i == 0 {
                            assert(ls[0] == prefixes@[0].0);
                        } else {
                            assert(prefixes@[i] == old_prefixes[i - 1]);
                            let w = choose|w: int| 0 <= w < tail.len() && #[trigger] tail[w] == old_prefixes[i - 1].0;
                            assert(ls[w + 1] == old_prefixes[i - 1].0);
                        }
                    }
                    assert forall|i: int, j: int| 0 <= i < j < prefixes@.len() implies prefixes@[i].0
                        != prefixes@[j].0 by {
                        if i > 0 {
                            assert(prefixes@[i] == old_prefixes[i - 1]);
                            assert(prefixes@[j] == old_prefixes[j - 1]);
                        } else {
                            assert(prefixes@[j] == old_prefixes[j - 1]);
                        }
                    }
                },
                None => {
                    assert forall|i: int| 0 <= i < prefixes@.len() implies ls.contains(
                        #[trigger] prefixes@[i].0,
                    ) by {
                        let w = choose|w: int| 0 <= w < tail.len() && #[trigger] tail[w] == prefixes@[i].0;
                        assert(ls[w + 1] == prefixes@[i].0);
                    }
                },
            },
            None => {
                assert forall|i: int| 0 <= i < prefixes@.len() implies ls.contains(
                    #[trigger] prefixes@[i].0,
                ) by {
                    let w = choose|w: int| 0 <= w < tail.len() && #[trigger] tail[w] == prefixes@[i].0;
                    assert(ls[w + 1] == prefixes@[i].0);
                }
            },
        }
    }
    assert(mock_layer_order().subrange(0, 7) =~= mock_layer_order());
    assert(contracts@.subrange(0, 7) =~= contracts@);
    let issue_labels = match labels_json {
        Some(c) => extract_issue_labels(c)?,
        None => {
            let v = vec![owned("bugs"), owned("feats"), owned("refacts")];
            assert(string_views(v@) =~= default_labels());
            v
        },
    };
    let mock_tag = match env_tag {
        Some(t) => owned(t),
        None => {
            let mut t = owned(if in_ci {
                "ci"
            } else {
                "local"
            });
            t.append("-");
            t.append(timestamp);
            t
        },
    };
    Ok(
        MockConfig {
            mock_tag,
            branch_prefixes: prefixes,
            default_branch: run.default_branch.clone(),
            jules_branch: run.jules_branch.clone(),
            issue_labels,
        },
    )
}


// ---- mock event files ----

/// The name of a mock event file: `mock-{tag}-{id}.yml`.
pub open spec fn mock_event_name(tag: Seq<char>, id: Seq<char>) -> Seq<char> {
    "mock-"@ + tag + "-"@ + id + ".yml"@
}

/// The event id that a file name carries for `tag`.
pub open spec fn event_id_of_name(name: Seq<char>, tag: Seq<char>) -> Option<Seq<char>> {
    match strip_prefix(name, "mock-"@ + tag + "-"@) {
        Some(rest) => strip_suffix(rest, ".yml"@),
        None => None,
    }
}

/// The id of a mock event file for `tag`: its file name without the
/// `mock-{tag}-` prefix and the `.yml` suffix.
pub fn mock_event_id_from_path(path: &str, mock_tag: &str) -> (r: Option<String>)
    ensures
        crate::text::opt_string_view(r) == match file_name(path@) {
            Some(name) => event_id_of_name(name, mock_tag@),
            None => None,
        },
{
    let name = match path_file_name(path) {
        Some(n) => n,
        None => {
            return None;
        },
    };
    let mut prefix = concat("mock-", mock_tag);
    prefix.append("-");
    match strip_prefix_str(name, prefix.as_str()) {
        Some(rest) => match strip_suffix_str(rest, ".yml") {
            Some(id) => Some(owned(id)),
            None => None,
        },
        None => None,
    }
}

/// A mock event file named for a tag gives back the id it was named with.
pub proof fn lemma_event_name_roundtrip(tag: Seq<char>, id: Seq<char>)
    ensures
        event_id_of_name(mock_event_name(tag, id), tag) == Some(id),
{
    reveal_strlit(".yml");
    let p = "mock-"@ + tag + "-"@;
    let name = mock_event_name(tag, id);
    assert(name =~= p + (id + ".yml"@));
    assert(name.subrange(0, p.len() as int) =~= p);
    let rest = name.subrange(p.len() as int, name.len() as int);
    assert(rest =~= id + ".yml"@);
    assert(rest.subrange(rest.len() - 4, rest.len() as int) =~= ".yml"@);
    assert(rest.subrange(0, rest.len() - 4) =~= id);
}

// ---- YAML-safe values and path components ----

/// Characters that could break a YAML scalar.
pub open spec fn yaml_unsafe(c: char) -> bool {
    c == '\n' || c == '\r' || c == ':' || c == '#' || c == '\'' || c == '"' || c == '{' || c
        == '}' || c == '[' || c == ']'
}

/// `s` without its YAML-unsafe characters, the others in order.
pub open spec fn sanitized(s: Seq<char>) -> Seq<char>
    decreases s.len(),
{
    if s.len() == 0 {
        seq![]
    } else if yaml_unsafe(s.last()) {
        sanitized(s.drop_last())
    } else {
        sanitized(s.drop_last()).push(s.last())
    }
}

/// Sanitize a value for safe embedding in YAML scalar fields: strip the
/// characters that could break YAML structure.
pub fn sanitize_yaml_value(value: &str) -> (r: String)
    ensures
        r@ == sanitized(value@),
{
    let cs = crate::text::chars_of(value);
    let mut out = String::new();
    let mut k: usize = 0;
    while k < cs.len()
        invariant
            k <= cs.len(),
            cs@ == value@,
            out@ == sanitized(value@.subrange(0, k as int)),
        decreases cs.len() - k,
    {
        let c = cs[k];
        assert(value@.subrange(0, k + 1).drop_last() =~= value@.subrange(0, k as int));
        if !(c == '\n' || c == '\r' || c == ':' || c == '#' || c == '\'' || c == '"' || c == '{'
            || c == '}' || c == '[' || c == ']') {
            let one = value.substring_char(k, k + 1);
            out.append(one);
            assert(one@ =~= seq![c]);
        }
        k = k + 1;
    }
    assert(value@.subrange(0, value@.len() as int) =~= value@);
    out
}

/// Sanitized text holds no YAML-unsafe character and keeps every other
/// character; sanitizing it again changes nothing.
pub proof fn lemma_sanitized_safe(s: Seq<char>)
    ensures
        forall|i: int| 0 <= i < sanitized(s).len() ==> !yaml_unsafe(#[trigger] sanitized(s)[i]),
        sanitized(sanitized(s)) == sanitized(s),
        sanitized(s).len() <= s.len(),
    decreases s.len(),
{
    if s.len() > 0 {
        lemma_sanitized_safe(s.drop_last());
        let t = sanitized(s.drop_last());
        if !yaml_unsafe(s.last()) {
            assert(t.push(s.last()).drop_last() =~= t);
        }
    }
}

pub open spec fn safe_component_char(c: char) -> bool {
    ('a' <= c <= 'z') || ('A' <= c <= 'Z') || ('0' <= c <= '9') || c == '-' || c == '_'
}

/// A name that can stand as one path component: non-empty, and made of
/// ASCII letters, digits, hyphens and underscores.
pub open spec fn safe_path_component(s: Seq<char>) -> bool {
    s.len() > 0 && forall|i: int| 0 <= i < s.len() ==> safe_component_char(#[trigger] s[i])
}

/// Whether `s` is a safe path component.
pub fn validate_safe_path_component(s: &str) -> (r: bool)
    ensures
        r == safe_path_component(s@),
{
    let cs = crate::text::chars_of(s);
    if cs.len() == 0 {
        return false;
    }
    let mut k: usize = 0;
    while k < cs.len()
        invariant
            k <= cs.len(),
            cs@ == s@,
            forall|i: int| 0 <= i < k ==> safe_component_char(#[trigger] s@[i]),
        decreases cs.len() - k,
    {
        let c = cs[k];
        if !(('a' <= c && c <= 'z') || ('A' <= c && c <= 'Z') || ('0' <= c && c <= '9') || c == '-'
            || c == '_') {
            assert(!safe_component_char(s@[k as int]));
            return false;
        }
        k = k + 1;
    }
    true
}

/// A safe path component has no path separator and is neither `.` nor
/// `..`, so it names exactly one entry below its directory.
pub proof fn lemma_safe_component_is_plain(s: Seq<char>)
    requires
        safe_path_component(s),
    ensures
        !s.contains('/'),
        !s.contains('\\'),
        s != seq!['.'],
        s != seq!['.', '.'],
{
    if s.contains('/') {
        let i = choose|i: int| 0 <= i < s.len() && s[i] == '/';
        assert(safe_component_char(s[i]));
    }
    if s.contains('\\') {
        let i = choose|i: int| 0 <= i < s.len() && s[i] == '\\';
        assert(safe_component_char(s[i]));
    }
    assert(safe_component_char(s[0]));
}

// ---- innovators ----

/// The two phases of an innovator run.
#[derive(Debug, Clone, Copy, PartialEq, Eq, Structural)]
pub enum InnovatorPhase {
    /// Create `idea.yml`.
    Creation,
    /// Turn the idea into a proposal and remove `idea.yml`.
    Refinement,
}

/// Check the arguments of a mock innovator run and tell its phase. The
/// role is required first, then the phase, which must be `creation` or
/// `refinement`; the role must be a safe path component.
pub fn innovator_phase(role: Option<&str>, phase: Option<&str>) -> (r: Result<InnovatorPhase, AppError>)
    ensures
        role is None ==> (r matches Err(e) && e is MissingArgument),
        role is Some && phase is None ==> (r matches Err(e) && e is MissingArgument),
        role matches Some(ro) ==> (phase matches Some(ph) ==> {
            if ph@ != "creation"@ && ph@ != "refinement"@ {
                r matches Err(e) && e is Validation
            } else if !safe_path_component(ro@) {
                r matches Err(e) && e is Validation
            } else if ph@ == "creation"@ {
                r == Ok::<InnovatorPhase, AppError>(InnovatorPhase::Creation)
            } else {
                r == Ok::<InnovatorPhase, AppError>(InnovatorPhase::Refinement)
            }
        }),
{
    let role = match role {
        Some(r) => r,
        None => {
            return Err(AppError::MissingArgument(owned("Role (persona) is required for innovators")));
        },
    };
    let phase = match phase {
        Some(p) => p,
        None => {
            return Err(
                AppError::MissingArgument(
                    owned("--phase is required for innovators (creation or refinement)"),
                ),
            );
        },
    };
    let creation = str_eq(phase, "creation");
    let refinement = str_eq(phase, "refinement");
    if !creation && !refinement {
        return Err(
            AppError::Validation(
                concat3("Invalid phase '", phase, "': must be 'creation' or 'refinement'"),
            ),
        );
    }
    if !validate_safe_path_component(role) {
        return Err(
            AppError::Validation(
                concat3(
                    "Invalid role name '",
                    role,
                    "': must be alphanumeric with hyphens or underscores only",
                ),
            ),
        );
    }
    if creation {
        Ok(InnovatorPhase::Creation)
    } else {
        Ok(InnovatorPhase::Refinement)
    }
}


// ---- the decider's source events ----

/// The event id a path carries for `tag`.
pub open spec fn event_id_of_path(p: Seq<char>, tag: Seq<char>) -> Option<Seq<char>> {
    match file_name(p) {
        Some(name) => event_id_of_name(name, tag),
        None => None,
    }
}

/// The paths of `ps` that carry an event id for `tag`, in order.
pub open spec fn tagged_paths(ps: Seq<String>, tag: Seq<char>) -> Seq<String>
    decreases ps.len(),
{
    if ps.len() == 0 {
        seq![]
    } else if event_id_of_path(ps.last()@, tag) is Some {
        tagged_paths(ps.drop_last(), tag).push(ps.last())
    } else {
        tagged_paths(ps.drop_last(), tag)
    }
}

/// The event ids the paths carry for `tag`, in order.
pub open spec fn event_ids(ps: Seq<String>, tag: Seq<char>) -> Seq<Seq<char>>
    decreases ps.len(),
{
    if ps.len() == 0 {
        seq![]
    } else {
        match event_id_of_path(ps.last()@, tag) {
            Some(id) => event_ids(ps.drop_last(), tag).push(id),
            None => event_ids(ps.drop_last(), tag),
        }
    }
}

/// The decided event files of a mock run: those of `paths` that carry an
/// event id for the tag, sorted by name.
pub fn list_mock_decided_files(paths: &Vec<String>, mock_tag: &str) -> (r: Vec<String>)
    ensures
        r@.to_multiset() == tagged_paths(paths@, mock_tag@).to_multiset(),
        crate::order::lex_sorted(string_views(r@)),
{
    let mut tagged: Vec<String> = Vec::new();
    let mut k: usize = 0;
    assert(paths@.subrange(0, 0) =~= Seq::<String>::empty());
    while k < paths.len()
        invariant
            k <= paths.len(),
            tagged@ == tagged_paths(paths@.subrange(0, k as int), mock_tag@),
        decreases paths.len() - k,
    {
        assert(paths@.subrange(0, k + 1).drop_last() =~= paths@.subrange(0, k as int));
        if mock_event_id_from_path(paths[k].as_str(), mock_tag).is_some() {
            tagged.push(paths[k].clone());
        }
        k = k + 1;
    }
    assert(paths@.subrange(0, paths@.len() as int) =~= paths@);
    crate::order::sort_strings(&tagged)
}

/// The source events the mock decider routes: the first decided event goes
/// to the planner's issue, the second to the implementer's; at least two
/// are needed.
pub fn decider_source_events(decided: &Vec<String>, mock_tag: &str) -> (r: Result<(String, String), AppError>)
    ensures
        event_ids(decided@, mock_tag@).len() < 2 ==> (r matches Err(AppError::Validation(m)) && m@
            == "Mock decider requires at least 2 decided events for tag '"@ + mock_tag@ + "', found "@
            + crate::mock::decimal_digits(event_ids(decided@, mock_tag@).len())),
        event_ids(decided@, mock_tag@).len() >= 2 ==> (r matches Ok(p) && p.0@ == event_ids(
            decided@,
            mock_tag@,
        )[0] && p.1@ == event_ids(decided@, mock_tag@)[1]),
{
    let mut ids: Vec<String> = Vec::new();
    let mut k: usize = 0;
    assert(decided@.subrange(0, 0) =~= Seq::<String>::empty());
    while k < decided.len()
        invariant
            k <= decided.len(),
            string_views(ids@) == event_ids(decided@.subrange(0, k as int), mock_tag@),
        decreases decided.len() - k,
    {
        assert(decided@.subrange(0, k + 1).drop_last() =~= decided@.subrange(0, k as int));
        match mock_event_id_from_path(decided[k].as_str(), mock_tag) {
            Some(id) => {
                ids.push(id);
            },
            None => {},
        }
        assert(string_views(ids@) =~= event_ids(decided@.subrange(0, k + 1), mock_tag@));
        k = k + 1;
    }
    assert(decided@.subrange(0, decided@.len() as int) =~= decided@);
    if ids.len() < 2 {
        let mut msg = concat3(
            "Mock decider requires at least 2 decided events for tag '",
            mock_tag,
            "', found ",
        );
        let count = crate::mock::decimal_text(ids.len() as u64);
        msg.append(count.as_str());
        return Err(AppError::Validation(msg));
    }
    assert(ids@[0]@ == string_views(ids@)[0]);
    assert(ids@[1]@ == string_views(ids@)[1]);
    Ok((ids[0].clone(), ids[1].clone()))
}

/// The issue a decided event is attached to: the planner's issue for the
/// planner's event, the implementer's for every other.
pub fn assigned_issue<'a>(event_id: &str, planner_event_id: &str, planner_issue_id: &'a str, impl_issue_id: &'a str) -> (r: &'a str)
    ensures
        r@ == if event_id@ == planner_event_id@ {
            planner_issue_id@
        } else {
            impl_issue_id@
        },
{
    if str_eq(event_id, planner_event_id) {
        planner_issue_id
    } else {
        impl_issue_id
    }
}


/// The error text for the arguments of a mock innovator run that creates
/// proposals (see `innovator_proposal_args`).
pub open spec fn proposal_args_message(role: Option<Seq<char>>, task: Option<Seq<char>>) -> Seq<char> {
    match role {
        None => "Role is required for innovators"@,
        Some(r) => match task {
            None => "--task is required for innovators (create_three_proposals)"@,
            Some(t) => if t != "create_three_proposals"@ {
                "Invalid innovator task '"@ + t + "': expected create_three_proposals"@
            } else {
                "Invalid role name '"@ + r + "': must be alphanumeric with hyphens or underscores only"@
            },
        },
    }
}

/// Check the arguments of a mock innovator run that creates proposals: the
/// role and the task are required, the task must be
/// `create_three_proposals`, and the role a safe path component.
pub fn innovator_proposal_args<'a>(role: Option<&'a str>, task: Option<&'a str>) -> (r: Result<(&'a str, &'a str), AppError>)
    ensures
        r matches Err(e) ==> crate::error::error_payload(e) == proposal_args_message(
            crate::text::opt_view(role),
            crate::text::opt_view(task),
        ),
        role is None ==> (r matches Err(e) && e is MissingArgument),
        role is Some && task is None ==> (r matches Err(e) && e is MissingArgument),
        role matches Some(ro) ==> (task matches Some(t) ==> {
            if t@ != "create_three_proposals"@ {
                r matches Err(e) && e is Validation
            } else if !safe_path_component(ro@) {
                r matches Err(e) && e is Validation
            } else {
                r matches Ok(p) && p.0@ == ro@ && p.1@ == t@
            }
        }),
{
    let role = match role {
        Some(r) => r,
        None => {
            return Err(AppError::MissingArgument(owned("Role is required for innovators")));
        },
    };
    let task = match task {
        Some(t) => t,
        None => {
            return Err(
                AppError::MissingArgument(
                    owned("--task is required for innovators (create_three_proposals)"),
                ),
            );
        },
    };
    if !str_eq(task, "create_three_proposals") {
        return Err(
            AppError::Validation(
                concat3("Invalid innovator task '", task, "': expected create_three_proposals"),
            ),
        );
    }
    if !validate_safe_path_component(role) {
        return Err(
            AppError::Validation(
                concat3(
                    "Invalid role name '",
                    role,
                    "': must be alphanumeric with hyphens or underscores only",
                ),
            ),
        );
    }
    Ok((role, task))
}

/// The file name of a mock proposal: the role with `_` as `-`, then
/// `-mock-proposal-{index}.yml`.
pub open spec fn proposal_file_name(role: Seq<char>, index: nat) -> Seq<char> {
    crate::text::replaced(role, "_"@, "-"@) + "-mock-proposal-"@ + crate::mock::decimal_digits(index)
        + ".yml"@
}

/// The file name of the `index`-th mock proposal of a role.
pub fn mock_proposal_file_name(role: &str, index: u64) -> (r: String)
    ensures
        r@ == proposal_file_name(role@, index as nat),
{
    proof {
        reveal_strlit("_");
    }
    let mut name = crate::text::replace_all(role, "_", "-");
    name.append("-mock-proposal-");
    let digits = crate::mock::decimal_text(index);
    name.append(digits.as_str());
    name.append(".yml");
    name
}

/// The title of the `index`-th mock proposal of a role.
pub fn mock_proposal_title(index: u64, role: &str) -> (r: String)
    ensures
        r@ == "Mock proposal "@ + crate::mock::decimal_digits(index as nat) + " for "@ + role@,
{
    let mut t = owned("Mock proposal ");
    let digits = crate::mock::decimal_text(index);
    t.append(digits.as_str());
    t.append(" for ");
    t.append(role);
    t
}


// ---- mock outputs ----

/// What a mock run reports.
#[derive(Debug, Clone)]
pub struct MockOutput {
    pub mock_branch: String,
    pub mock_pr_number: u64,
    pub mock_pr_url: String,
    pub mock_tag: String,
}

/// The mock narrator: a no-op that keeps the existing changes summary; it
/// only checks that the narrator has a branch prefix.
pub fn execute_mock_narrator(config: &MockConfig) -> (r: Result<MockOutput, AppError>)
    ensures
        prefix_of(config.branch_prefixes@, Layer::Narrator) is None ==> (r matches Err(e)
            && e is InvalidConfig),
        prefix_of(config.branch_prefixes@, Layer::Narrator) is Some ==> (r matches Ok(o)
            && o.mock_branch@.len() == 0 && o.mock_pr_number == 0 && o.mock_pr_url@.len() == 0
            && o.mock_tag@ == config.mock_tag@),
{
    let _ = config.branch_prefix(Layer::Narrator)?;
    Ok(
        MockOutput {
            mock_branch: String::new(),
            mock_pr_number: 0,
            mock_pr_url: String::new(),
            mock_tag: config.mock_tag.clone(),
        },
    )
}

/// The lines a mock run writes to `GITHUB_OUTPUT` (`key=value`, lower-case
/// keys) or prints locally (upper-case keys), each ending in a newline.
pub open spec fn output_lines(o: MockOutput, upper: bool) -> Seq<char> {
    let keys = if upper {
        seq!["MOCK_BRANCH="@, "MOCK_PR_NUMBER="@, "MOCK_PR_URL="@, "MOCK_TAG="@]
    } else {
        seq!["mock_branch="@, "mock_pr_number="@, "mock_pr_url="@, "mock_tag="@]
    };
    keys[0] + o.mock_branch@ + "\n"@ + keys[1] + crate::mock::decimal_digits(o.mock_pr_number as nat)
        + "\n"@ + keys[2] + o.mock_pr_url@ + "\n"@ + keys[3] + o.mock_tag@ + "\n"@
}

/// The lines that report a mock run's outputs.
pub fn mock_output_lines(o: &MockOutput, upper: bool) -> (r: String)
    ensures
        r@ == output_lines(*o, upper),
{
    let (k0, k1, k2, k3) = if upper {
        ("MOCK_BRANCH=", "MOCK_PR_NUMBER=", "MOCK_PR_URL=", "MOCK_TAG=")
    } else {
        ("mock_branch=", "mock_pr_number=", "mock_pr_url=", "mock_tag=")
    };
    let mut s = concat(k0, o.mock_branch.as_str());
    s.append("\n");
    s.append(k1);
    let n = crate::mock::decimal_text(o.mock_pr_number);
    s.append(n.as_str());
    s.append("\n");
    s.append(k2);
    s.append(o.mock_pr_url.as_str());
    s.append("\n");
    s.append(k3);
    s.append(o.mock_tag.as_str());
    s.append("\n");
    s
}


// ---- mock observer artifacts ----

/// The file name of a mock event: `mock-{tag}-{id}.yml`.
pub fn mock_event_file_name(tag: &str, id: &str) -> (r: String)
    ensures
        r@ == mock_event_name(tag@, id@),
{
    let mut n = concat3("mock-", tag, "-");
    n.append(id);
    n.append(".yml");
    n
}

/// A mock event from the observer template: the template's id, date and tag
/// placeholders (`mock01`, `2026-02-05`, `test-tag`) filled in; the second
/// event of a run speaks of an implementation check.
pub open spec fn observer_event_text(template: Seq<char>, id: Seq<char>, date: Seq<char>, tag: Seq<char>, second: bool) -> Seq<char> {
    let t = crate::text::replaced(
        crate::text::replaced(crate::text::replaced(template, "mock01"@, id), "2026-02-05"@, date),
        "test-tag"@,
        tag,
    );
    if second {
        crate::text::replaced(t, "workflow validation"@, "workflow implementation check"@)
    } else {
        t
    }
}

/// Fill in the observer's mock event template.
pub fn observer_event_content(template: &str, id: &str, date: &str, tag: &str, second: bool) -> (r: String)
    ensures
        r@ == observer_event_text(template@, id@, date@, tag@, second),
{
    proof {
        reveal_strlit("mock01");
        reveal_strlit("2026-02-05");
        reveal_strlit("test-tag");
        reveal_strlit("workflow validation");
    }
    let a = crate::text::replace_all(template, "mock01", id);
    let b = crate::text::replace_all(a.as_str(), "2026-02-05", date);
    let c = crate::text::replace_all(b.as_str(), "test-tag", tag);
    if second {
        crate::text::replace_all(c.as_str(), "workflow validation", "workflow implementation check")
    } else {
        c
    }
}

/// The file name of an observer's comment for an innovator persona:
/// `observer-{role}-{tag}.yml`, the same on every run with that tag.
pub fn observer_comment_file_name(role: &str, tag: &str) -> (r: String)
    ensures
        r@ == "observer-"@ + role@ + "-"@ + tag@ + ".yml"@,
{
    let mut n = concat3("observer-", role, "-");
    n.append(tag);
    n.append(".yml");
    n
}

/// Fill in the observer comment template: its author and tag placeholders
/// (`mock-author`, `test-tag`).
pub fn observer_comment_content(template: &str, role: &str, tag: &str) -> (r: String)
    ensures
        r@ == crate::text::replaced(crate::text::replaced(template@, "mock-author"@, role@), "test-tag"@, tag@),
{
    proof {
        reveal_strlit("mock-author");
        reveal_strlit("test-tag");
    }
    let a = crate::text::replace_all(template, "mock-author", role);
    crate::text::replace_all(a.as_str(), "test-tag", tag)
}


// ---- mock innovator and decider artifacts ----

/// Fill in the innovator idea template: id, persona, date and the
/// sanitized tag (`mock01`, `mock-persona`, `2026-02-05`, `test-tag`).
pub fn innovator_idea_content(template: &str, id: &str, role: &str, date: &str, tag: &str) -> (r: String)
    ensures
        r@ == crate::text::replaced(
            crate::text::replaced(
                crate::text::replaced(crate::text::replaced(template@, "mock01"@, id@), "mock-persona"@, role@),
                "2026-02-05"@,
                date@,
            ),
            "test-tag"@,
            sanitized(tag@),
        ),
{
    proof {
        reveal_strlit("mock01");
        reveal_strlit("mock-persona");
        reveal_strlit("2026-02-05");
        reveal_strlit("test-tag");
    }
    let safe_tag = sanitize_yaml_value(tag);
    let a = crate::text::replace_all(template, "mock01", id);
    let b = crate::text::replace_all(a.as_str(), "mock-persona", role);
    let c = crate::text::replace_all(b.as_str(), "2026-02-05", date);
    crate::text::replace_all(c.as_str(), "test-tag", safe_tag.as_str())
}

/// Fill in the mock proposal template: `__ID__`, `__ROLE__`, `__DATE__`,
/// `__TITLE__`, `__INDEX__` and `__TAG__` (with the sanitized tag).
pub fn mock_proposal_content(
    template: &str,
    id: &str,
    role: &str,
    date: &str,
    title: &str,
    index: u64,
    tag: &str,
) -> (r: String)
    ensures
        r@ == crate::text::replaced(
            crate::text::replaced(
                crate::text::replaced(
                    crate::text::replaced(
                        crate::text::replaced(crate::text::replaced(template@, "__ID__"@, id@), "__ROLE__"@, role@),
                        "__DATE__"@,
                        date@,
                    ),
                    "__TITLE__"@,
                    title@,
                ),
                "__INDEX__"@,
                crate::mock::decimal_digits(index as nat),
            ),
            "__TAG__"@,
            sanitized(tag@),
        ),
{
    proof {
        reveal_strlit("__ID__");
        reveal_strlit("__ROLE__");
        reveal_strlit("__DATE__");
        reveal_strlit("__TITLE__");
        reveal_strlit("__INDEX__");
        reveal_strlit("__TAG__");
    }
    let safe_tag = sanitize_yaml_value(tag);
    let digits = crate::mock::decimal_text(index);
    let a = crate::text::replace_all(template, "__ID__", id);
    let b = crate::text::replace_all(a.as_str(), "__ROLE__", role);
    let c = crate::text::replace_all(b.as_str(), "__DATE__", date);
    let d = crate::text::replace_all(c.as_str(), "__TITLE__", title);
    let e = crate::text::replace_all(d.as_str(), "__INDEX__", digits.as_str());
    crate::text::replace_all(e.as_str(), "__TAG__", safe_tag.as_str())
}

/// Fill in the innovator perspective template with the role and the three
/// proposal titles, newest first (`__TITLE_1__` is the third proposal).
pub fn innovator_perspective_content(template: &str, role: &str, titles: &Vec<String>) -> (r: String)
    requires
        titles.len() == 3,
    ensures
        r@ == crate::text::replaced(
            crate::text::replaced(
                crate::text::replaced(crate::text::replaced(template@, "__ROLE__"@, role@), "__TITLE_1__"@, titles@[2]@),
                "__TITLE_2__"@,
                titles@[1]@,
            ),
            "__TITLE_3__"@,
            titles@[0]@,
        ),
{
    proof {
        reveal_strlit("__ROLE__");
        reveal_strlit("__TITLE_1__");
        reveal_strlit("__TITLE_2__");
        reveal_strlit("__TITLE_3__");
    }
    let a = crate::text::replace_all(template, "__ROLE__", role);
    let b = crate::text::replace_all(a.as_str(), "__TITLE_1__", titles[2].as_str());
    let c = crate::text::replace_all(b.as_str(), "__TITLE_2__", titles[1].as_str());
    crate::text::replace_all(c.as_str(), "__TITLE_3__", titles[0].as_str())
}

/// A mock decider issue from the issue template: id, tag and source event
/// filled in (`mock01`, `test-tag`, `event1`); the planner's issue asks for
/// deep analysis at high priority, the implementer's is ready.
pub open spec fn decider_issue_text(template: Seq<char>, id: Seq<char>, tag: Seq<char>, event: Seq<char>, for_planner: bool) -> Seq<char> {
    let t = crate::text::replaced(
        crate::text::replaced(crate::text::replaced(template, "mock01"@, id), "test-tag"@, tag),
        "event1"@,
        event,
    );
    if for_planner {
        crate::text::replaced(
            crate::text::replaced(
                crate::text::replaced(
                    t,
                    "requires_deep_analysis: false"@,
                    "requires_deep_analysis: true\ndeep_analysis_reason: \"Mock issue requires architectural analysis-for-workflow-validation\""@,
                ),
                "Mock issue for workflow validation"@,
                "Mock issue requiring deep analysis"@,
            ),
            "medium"@,
            "high"@,
        )
    } else {
        crate::text::replaced(t, "Mock issue for workflow validation"@, "Mock issue ready for implementation"@)
    }
}

/// Fill in the mock decider's issue template for the planner's or the
/// implementer's issue.
pub fn decider_issue_content(template: &str, id: &str, tag: &str, event: &str, for_planner: bool) -> (r: String)
    ensures
        r@ == decider_issue_text(template@, id@, tag@, event@, for_planner),
{
    proof {
        reveal_strlit("mock01");
        reveal_strlit("test-tag");
        reveal_strlit("event1");
        reveal_strlit("requires_deep_analysis: false");
        reveal_strlit("Mock issue for workflow validation");
        reveal_strlit("medium");
    }
    let a = crate::text::replace_all(template, "mock01", id);
    let b = crate::text::replace_all(a.as_str(), "test-tag", tag);
    let c = crate::text::replace_all(b.as_str(), "event1", event);
    if for_planner {
        let d = crate::text::replace_all(
            c.as_str(),
            "requires_deep_analysis: false",
            "requires_deep_analysis: true\ndeep_analysis_reason: \"Mock issue requires architectural analysis-for-workflow-validation\"",
        );
        let e = crate::text::replace_all(
            d.as_str(),
            "Mock issue for workflow validation",
            "Mock issue requiring deep analysis",
        );
        crate::text::replace_all(e.as_str(), "medium", "high")
    } else {
        crate::text::replace_all(
            c.as_str(),
            "Mock issue for workflow validation",
            "Mock issue ready for implementation",
        )
    }
}


/// The mock planner's expansion of a requirement: deep analysis no longer
/// required, and a mock analysis section appended, stamped with the time
/// and the tag.
pub open spec fn planner_expansion_text(content: Seq<char>, timestamp: Seq<char>, tag: Seq<char>) -> Seq<char> {
    crate::text::replaced(content, "requires_deep_analysis: true"@, "requires_deep_analysis: false"@)
        + "\n# Mock planner expansion\nexpanded_at: \""@ + timestamp
        + "\"\nexpanded_by: mock-planner\nanalysis_details: |\n  Mock deep analysis performed by jlo --mock for workflow validation.\n  Mock tag: "@
        + tag
        + "\n  \n  ## Impact Analysis\n  - Mock impact area 1\n  - Mock impact area 2\n  \n  ## Implementation Notes\n  - No actual analysis performed (mock mode)\n"@
}

/// Expand a requirement the way the mock planner does.
pub fn planner_expansion(content: &str, timestamp: &str, tag: &str) -> (r: String)
    ensures
        r@ == planner_expansion_text(content@, timestamp@, tag@),
{
    proof {
        reveal_strlit("requires_deep_analysis: true");
    }
    let mut s = crate::text::replace_all(content, "requires_deep_analysis: true", "requires_deep_analysis: false");
    s.append("\n# Mock planner expansion\nexpanded_at: \"");
    s.append(timestamp);
    s.append(
        "\"\nexpanded_by: mock-planner\nanalysis_details: |\n  Mock deep analysis performed by jlo --mock for workflow validation.\n  Mock tag: ",
    );
    s.append(tag);
    s.append(
        "\n  \n  ## Impact Analysis\n  - Mock impact area 1\n  - Mock impact area 2\n  \n  ## Implementation Notes\n  - No actual analysis performed (mock mode)\n",
    );
    s
}

} // verus!
